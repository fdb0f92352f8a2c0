//! One round of the game: the hidden word, the failed guesses, the status and the points.

use vstd::prelude::*;
use crate::letters::{letters_match, same_letter};

verus! {

/// The number of distinct wrong letters that loses a round.
pub const MAX_FAILED_ATTEMPTS: u8 = 7;

/// One letter of the word to guess, and whether the player has still to find it.
#[derive(Clone, Copy, Debug, PartialEq, Eq, Structural)]
pub struct HiddenChar {
    pub character: char,
    pub is_hidden: bool,
}

/// Where a round stands.
#[derive(Clone, Copy, Debug, PartialEq, Eq, Structural)]
pub enum RoundStatus {
    Ongoing,
    Lost,
    Won,
}

impl RoundStatus {
    /// The word by which a status is shown.
    pub open spec fn name(self) -> Seq<char> {
        match self {
            RoundStatus::Ongoing => "Ongoing"@,
            RoundStatus::Lost => "Lost"@,
            RoundStatus::Won => "Won"@,
        }
    }

    /// Returns the status in words.
    pub fn to_string(&self) -> (text: String)
        ensures
            text@ == self.name(),
    {
        match self {
            RoundStatus::Ongoing => "Ongoing".to_owned(),
            RoundStatus::Lost => "Lost".to_owned(),
            RoundStatus::Won => "Won".to_owned(),
        }
    }
}

/// A round as it is played: the word, the wrong letters tried so far, the status and the score.
pub struct RoundProgress {
    pub hidden_word: Vec<HiddenChar>,
    pub failed_attempts: Vec<char>,
    pub status: RoundStatus,
    pub points: i64,
}

/// The mathematical value of a round: the word, which of its letters are still hidden,
/// the wrong letters in the order in which they were tried, the status and the points.
pub struct RoundView {
    pub word: Seq<char>,
    pub hidden: Seq<bool>,
    pub failed: Seq<char>,
    pub status: RoundStatus,
    pub points: int,
}

/// The characters of a word, hidden or not.
pub open spec fn word_of(letters: Seq<HiddenChar>) -> Seq<char> {
    Seq::new(letters.len(), |i: int| letters[i].character)
}

/// For each letter of a word, whether it is still hidden.
pub open spec fn mask_of(letters: Seq<HiddenChar>) -> Seq<bool> {
    Seq::new(letters.len(), |i: int| letters[i].is_hidden)
}

impl View for RoundProgress {
    type V = RoundView;

    open spec fn view(&self) -> RoundView {
        RoundView {
            word: word_of(self.hidden_word@),
            hidden: mask_of(self.hidden_word@),
            failed: self.failed_attempts@,
            status: self.status,
            points: self.points as int,
        }
    }
}

/// A mask that hides `len` letters.
pub open spec fn all_hidden(len: nat) -> Seq<bool> {
    Seq::new(len, |i: int| true)
}

/// Nothing is left to find.
pub open spec fn all_revealed(hidden: Seq<bool>) -> bool {
    forall|i: int| 0 <= i < hidden.len() ==> !hidden[i]
}

/// How many letters of the mask are shown.
pub open spec fn revealed_count(hidden: Seq<bool>) -> nat
    decreases hidden.len(),
{
    if hidden.len() == 0 {
        0
    } else {
        revealed_count(hidden.drop_last()) + if hidden.last() {
            0nat
        } else {
            1nat
        }
    }
}

/// How many letters a guess finds: those still hidden that are the same letter as the guess.
pub open spec fn found_by(word: Seq<char>, hidden: Seq<bool>, guess: char) -> nat
    decreases word.len(),
{
    if word.len() == 0 || hidden.len() != word.len() {
        0
    } else {
        found_by(word.drop_last(), hidden.drop_last(), guess) + if hidden.last() && same_letter(
            word.last(),
            guess,
        ) {
            1nat
        } else {
            0nat
        }
    }
}

/// The mask after a guess: every letter that the guess names is shown, the others are as before.
pub open spec fn uncover(word: Seq<char>, hidden: Seq<bool>, guess: char) -> Seq<bool> {
    Seq::new(hidden.len(), |i: int| hidden[i] && !same_letter(word[i], guess))
}

/// The status that a mask and a list of wrong letters call for: won once nothing is hidden,
/// else lost once the wrong letters have reached the limit.
pub open spec fn status_of(hidden: Seq<bool>, failed: Seq<char>) -> RoundStatus {
    if all_revealed(hidden) {
        RoundStatus::Won
    } else if failed.len() >= MAX_FAILED_ATTEMPTS {
        RoundStatus::Lost
    } else {
        RoundStatus::Ongoing
    }
}

/// The round that starts on `word`: nothing found, nothing tried, no points.
/// A word without characters has nothing to find, so its round is won from the start.
pub open spec fn new_round(word: Seq<char>) -> RoundView {
    RoundView {
        word,
        hidden: all_hidden(word.len()),
        failed: Seq::empty(),
        status: status_of(all_hidden(word.len()), Seq::empty()),
        points: 0,
    }
}

/// The letter is in the list, in either case: it is a letter of the word, found or not,
/// where the list is a word, and it was tried before where the list holds the wrong letters.
pub open spec fn among(list: Seq<char>, letter: char) -> bool {
    exists|i: int| 0 <= i < list.len() && same_letter(#[trigger] list[i], letter)
}

/// What a guess did to a round.
#[derive(Clone, Copy, Debug, PartialEq, Eq, Structural)]
pub enum GuessOutcome {
    /// The guess showed at least one hidden letter.
    Correct,
    /// The guess is no letter of the word and had not been tried: one more failed attempt.
    Wrong,
    /// The letter had been guessed before, rightly or wrongly: nothing changes.
    Repeated,
    /// The round had ended already: nothing changes.
    Ignored,
}

impl RoundView {
    /// What holds of every round that was started on a word and played by guesses:
    /// each shown letter has brought one point, the wrong letters are distinct, none of
    /// them is a letter of the word, there are no more of them than the limit, and the
    /// status is the one that the mask and the wrong letters call for.
    pub open spec fn wf(self) -> bool {
        &&& self.hidden.len() == self.word.len()
        &&& self.points == revealed_count(self.hidden)
        &&& self.failed.len() <= MAX_FAILED_ATTEMPTS
        &&& forall|i: int, j: int|
            0 <= i < j < self.failed.len() ==> !same_letter(
                #[trigger] self.failed[i],
                #[trigger] self.failed[j],
            )
        &&& forall|i: int| 0 <= i < self.failed.len() ==> !among(self.word, #[trigger] self.failed[i])
        &&& self.status == status_of(self.hidden, self.failed)
    }
}

/// What a guess does to a round that is still going on (it does nothing to one that has ended).
pub open spec fn outcome_of(round: RoundView, guess: char) -> GuessOutcome {
    if round.status != RoundStatus::Ongoing {
        GuessOutcome::Ignored
    } else if found_by(round.word, round.hidden, guess) > 0 {
        GuessOutcome::Correct
    } else if among(round.word, guess) || among(round.failed, guess) {
        GuessOutcome::Repeated
    } else {
        GuessOutcome::Wrong
    }
}

/// The round after a guess.  A round that has ended stays as it is.  Otherwise every hidden
/// letter that the guess names is shown and brings one point; a guess that names no letter
/// of the word joins the wrong letters unless it is among them already; and the status is
/// set anew.
pub open spec fn after_guess(round: RoundView, guess: char) -> RoundView {
    if round.status != RoundStatus::Ongoing {
        round
    } else {
        let hidden = uncover(round.word, round.hidden, guess);
        let failed = if among(round.word, guess) || among(round.failed, guess) {
            round.failed
        } else {
            round.failed.push(guess)
        };
        RoundView {
            word: round.word,
            hidden,
            failed,
            status: status_of(hidden, failed),
            points: round.points + found_by(round.word, round.hidden, guess),
        }
    }
}

/// The round after a run of guesses, applied in order.
pub open spec fn after_guesses(round: RoundView, guesses: Seq<char>) -> RoundView
    decreases guesses.len(),
{
    if guesses.len() == 0 {
        round
    } else {
        after_guess(after_guesses(round, guesses.drop_last()), guesses.last())
    }
}

/// Whether a letter is among the first `i + 1` of a list, from whether it is among the
/// first `i`.
pub proof fn lemma_among_next(list: Seq<char>, i: int, letter: char)
    requires
        0 <= i < list.len(),
    ensures
        among(list.take(i + 1), letter) == (among(list.take(i), letter) || same_letter(
            list[i],
            letter,
        )),
{
    let shorter = list.take(i);
    let longer = list.take(i + 1);
    if among(shorter, letter) {
        let k = choose|k: int| 0 <= k < shorter.len() && same_letter(#[trigger] shorter[k], letter);
        assert(same_letter(longer[k], letter));
    }
    if same_letter(list[i], letter) {
        assert(same_letter(longer[i], letter));
    }
    if among(longer, letter) && !same_letter(list[i], letter) {
        let k = choose|k: int| 0 <= k < longer.len() && same_letter(#[trigger] longer[k], letter);
        assert(same_letter(shorter[k], letter));
    }
}

/// Whether the first `i + 1` letters of a mask are all shown, from whether the first
/// `i` are.
pub proof fn lemma_all_revealed_next(hidden: Seq<bool>, i: int)
    requires
        0 <= i < hidden.len(),
    ensures
        all_revealed(hidden.take(i + 1)) == (all_revealed(hidden.take(i)) && !hidden[i]),
{
    let shorter = hidden.take(i);
    let longer = hidden.take(i + 1);
    if all_revealed(longer) {
        assert(!longer[i]);
        assert forall|j: int| 0 <= j < shorter.len() implies !shorter[j] by {
            assert(!longer[j]);
        }
    }
    if all_revealed(shorter) && !hidden[i] {
        assert forall|j: int| 0 <= j < longer.len() implies !longer[j] by {
            if j < i {
                assert(!shorter[j]);
            }
        }
    }
}

/// What a guess finds among the first `i + 1` letters, from what it finds among the
/// first `i`.
pub proof fn lemma_found_by_next(word: Seq<char>, hidden: Seq<bool>, i: int, guess: char)
    requires
        0 <= i < word.len(),
        hidden.len() == word.len(),
    ensures
        found_by(word.take(i + 1), hidden.take(i + 1), guess) == found_by(
            word.take(i),
            hidden.take(i),
            guess,
        ) + if hidden[i] && same_letter(word[i], guess) {
            1nat
        } else {
            0nat
        },
{
    assert(word.take(i + 1).drop_last() =~= word.take(i));
    assert(hidden.take(i + 1).drop_last() =~= hidden.take(i));
}

/// No more letters are shown than the word has.
pub proof fn lemma_revealed_count_bound(hidden: Seq<bool>)
    ensures
        revealed_count(hidden) <= hidden.len(),
        revealed_count(hidden) == hidden.len() <==> all_revealed(hidden),
    decreases hidden.len(),
{
    if hidden.len() > 0 {
        let rest = hidden.drop_last();
        lemma_revealed_count_bound(rest);
        if all_revealed(hidden) {
            assert forall|i: int| 0 <= i < rest.len() implies !rest[i] by {
                assert(!hidden[i]);
            }
        }
        if all_revealed(rest) && !hidden.last() {
            assert forall|i: int| 0 <= i < hidden.len() implies !hidden[i] by {
                if i < rest.len() {
                    assert(!rest[i]);
                }
            }
        }
    }
}

/// Showing the letters that a guess finds adds their number to the letters shown.
pub proof fn lemma_uncover_adds_found(word: Seq<char>, hidden: Seq<bool>, guess: char)
    requires
        hidden.len() == word.len(),
    ensures
        revealed_count(uncover(word, hidden, guess)) == revealed_count(hidden) + found_by(
            word,
            hidden,
            guess,
        ),
    decreases word.len(),
{
    if word.len() > 0 {
        lemma_uncover_adds_found(word.drop_last(), hidden.drop_last(), guess);
        assert(uncover(word, hidden, guess).drop_last() =~= uncover(
            word.drop_last(),
            hidden.drop_last(),
            guess,
        ));
    }
}

/// A guess finds letters of the word only, and no more of them than the word has.
pub proof fn lemma_found_is_in_word(word: Seq<char>, hidden: Seq<bool>, guess: char)
    ensures
        found_by(word, hidden, guess) <= word.len(),
        found_by(word, hidden, guess) > 0 ==> among(word, guess),
    decreases word.len(),
{
    if word.len() > 0 && hidden.len() == word.len() {
        lemma_found_is_in_word(word.drop_last(), hidden.drop_last(), guess);
        if found_by(word.drop_last(), hidden.drop_last(), guess) > 0 {
            let k = choose|k: int|
                0 <= k < word.drop_last().len() && same_letter(
                    #[trigger] word.drop_last()[k],
                    guess,
                );
            assert(same_letter(word[k], guess));
        } else if found_by(word, hidden, guess) > 0 {
            assert(same_letter(word[word.len() - 1], guess));
        }
    }
}

/// A guess keeps a round well formed.
pub proof fn lemma_after_guess_wf(round: RoundView, guess: char)
    requires
        round.wf(),
    ensures
        after_guess(round, guess).wf(),
{
    if round.status == RoundStatus::Ongoing {
        let next = after_guess(round, guess);
        lemma_uncover_adds_found(round.word, round.hidden, guess);
        if !(among(round.word, guess) || among(round.failed, guess)) {
            assert forall|i: int, j: int| 0 <= i < j < next.failed.len() implies !same_letter(
                #[trigger] next.failed[i],
                #[trigger] next.failed[j],
            ) by {
                if j == round.failed.len() {
                    assert(same_letter(round.failed[i], guess) ==> among(round.failed, guess));
                }
            }
            assert forall|i: int| 0 <= i < next.failed.len() implies !among(
                next.word,
                #[trigger] next.failed[i],
            ) by {
                if i < round.failed.len() {
                    assert(next.failed[i] == round.failed[i]);
                }
            }
        }
    }
}

impl HiddenChar {
    /// A letter that is still to be found.
    pub fn hidden(character: char) -> (letter: HiddenChar)
        ensures
            letter == (HiddenChar { character, is_hidden: true }),
    {
        HiddenChar { character, is_hidden: true }
    }
}

/// Hides every character of `rand_word`.
pub fn hide_word(rand_word: &str) -> (result: Vec<HiddenChar>)
    ensures
        word_of(result@) == rand_word@,
        mask_of(result@) == all_hidden(rand_word@.len()),
{
    let mut result: Vec<HiddenChar> = Vec::new();
    for ch in it: rand_word.chars()
        invariant
            result@.len() == it.index(),
            forall|j: int|
                0 <= j < result@.len() ==> (#[trigger] result@[j]).character == it.seq()[j]
                    && result@[j].is_hidden,
    {
        result.push(HiddenChar::hidden(ch));
    }
    result
}

/// Tells whether a round has ended, won or lost.
pub fn is_round_complete(status: &RoundStatus) -> (complete: bool)
    ensures
        complete == (*status != RoundStatus::Ongoing),
{
    match status {
        RoundStatus::Ongoing => false,
        RoundStatus::Lost => true,
        RoundStatus::Won => true,
    }
}

/// A round is well formed when it starts.
pub proof fn lemma_new_round_wf(word: Seq<char>)
    ensures
        new_round(word).wf(),
        new_round(word).status == if word.len() == 0 {
            RoundStatus::Won
        } else {
            RoundStatus::Ongoing
        },
{
    lemma_all_hidden_shows_nothing(word.len());
    if word.len() > 0 {
        assert(all_hidden(word.len())[0]);
    }
}

/// A mask that hides every letter shows none.
pub proof fn lemma_all_hidden_shows_nothing(len: nat)
    ensures
        revealed_count(all_hidden(len)) == 0,
    decreases len,
{
    if len > 0 {
        lemma_all_hidden_shows_nothing((len - 1) as nat);
        assert(all_hidden(len).drop_last() =~= all_hidden((len - 1) as nat));
    }
}

/// Starts a round on `rand_word`.
pub fn round_init(rand_word: &str) -> (round: RoundProgress)
    ensures
        round@ == new_round(rand_word@),
        round@.wf(),
{
    proof {
        lemma_new_round_wf(rand_word@);
    }
    let hidden_word = hide_word(rand_word);
    let status = if hidden_word.len() == 0 {
        RoundStatus::Won
    } else {
        assert(mask_of(hidden_word@)[0]);
        RoundStatus::Ongoing
    };
    RoundProgress { hidden_word, failed_attempts: Vec::new(), status, points: 0 }
}

/// Tells whether `guess` is among the wrong letters, in either case.
pub fn was_tried(failed_attempts: &Vec<char>, guess: char) -> (found: bool)
    ensures
        found == among(failed_attempts@, guess),
{
    let mut i: usize = 0;
    while i < failed_attempts.len()
        invariant
            i <= failed_attempts.len(),
            forall|j: int| 0 <= j < i ==> !same_letter(#[trigger] failed_attempts@[j], guess),
        decreases failed_attempts.len() - i,
    {
        if letters_match(failed_attempts[i], guess) {
            return true;
        }
        i += 1;
    }
    false
}

/// Counts the letters of a word that are shown.
pub fn count_revealed(letters: &Vec<HiddenChar>) -> (count: usize)
    ensures
        count == revealed_count(mask_of(letters@)),
{
    let ghost mask = mask_of(letters@);
    let mut count: usize = 0;
    let mut i: usize = 0;
    while i < letters.len()
        invariant
            i <= letters.len(),
            count <= i,
            mask == mask_of(letters@),
            count == revealed_count(mask.take(i as int)),
        decreases letters.len() - i,
    {
        assert(mask.take(i as int + 1).drop_last() =~= mask.take(i as int));
        if !letters[i].is_hidden {
            count += 1;
        }
        i += 1;
    }
    assert(mask.take(i as int) =~= mask);
    count
}

/// Tells whether `guess` is a letter of the word, in either case.
pub fn is_in_word(letters: &Vec<HiddenChar>, guess: char) -> (found: bool)
    ensures
        found == among(word_of(letters@), guess),
{
    let mut i: usize = 0;
    while i < letters.len()
        invariant
            i <= letters.len(),
            forall|j: int| 0 <= j < i ==> !same_letter(#[trigger] word_of(letters@)[j], guess),
        decreases letters.len() - i,
    {
        if letters_match(letters[i].character, guess) {
            assert(same_letter(word_of(letters@)[i as int], guess));
            return true;
        }
        i += 1;
    }
    false
}

/// Tells whether a round is well formed, for a caller that did not get it from
/// `round_init` and `submit_guess` alone.
pub fn is_well_formed(round: &RoundProgress) -> (ok: bool)
    ensures
        ok == round@.wf(),
{
    let shown: usize = count_revealed(&round.hidden_word);
    proof {
        lemma_revealed_count_bound(round@.hidden);
    }
    if round.points < 0 || round.points as u64 != shown as u64 {
        return false;
    }
    let tried: usize = round.failed_attempts.len();
    if tried > MAX_FAILED_ATTEMPTS as usize {
        return false;
    }
    let mut j: usize = 0;
    while j < tried
        invariant
            j <= tried,
            tried == round.failed_attempts@.len(),
            forall|a: int, b: int|
                0 <= a < b < j ==> !same_letter(
                    #[trigger] round.failed_attempts@[a],
                    #[trigger] round.failed_attempts@[b],
                ),
            forall|b: int|
                0 <= b < j ==> !among(round@.word, #[trigger] round.failed_attempts@[b]),
        decreases tried - j,
    {
        let letter = round.failed_attempts[j];
        if is_in_word(&round.hidden_word, letter) {
            return false;
        }
        let mut i: usize = 0;
        while i < j
            invariant
                i <= j,
                j < tried,
                tried == round.failed_attempts@.len(),
                letter == round.failed_attempts@[j as int],
                forall|a: int| 0 <= a < i ==> !same_letter(#[trigger] round.failed_attempts@[a], letter),
            decreases j - i,
        {
            if letters_match(round.failed_attempts[i], letter) {
                return false;
            }
            i += 1;
        }
        j += 1;
    }
    let status = if shown == round.hidden_word.len() {
        RoundStatus::Won
    } else if tried >= MAX_FAILED_ATTEMPTS as usize {
        RoundStatus::Lost
    } else {
        RoundStatus::Ongoing
    };
    round.status == status
}

/// Applies one guess to a round and tells what it did.
pub fn submit_guess(round: &mut RoundProgress, guess: char) -> (outcome: GuessOutcome)
    requires
        old(round)@.wf(),
        old(round).hidden_word@.len() <= i64::MAX,
    ensures
        final(round)@ == after_guess(old(round)@, guess),
        outcome == outcome_of(old(round)@, guess),
        final(round)@.wf(),
{
    if is_round_complete(&round.status) {
        return GuessOutcome::Ignored;
    }
    let ghost before = round@;
    let ghost letters = round.hidden_word@;
    let n: usize = round.hidden_word.len();
    let mut found: i64 = 0;
    let mut in_word = false;
    let mut all_guessed = true;
    let mut i: usize = 0;
    while i < n
        invariant
            i <= n,
            n == letters.len(),
            n <= i64::MAX,
            round.hidden_word@.len() == n,
            round.failed_attempts == old(round).failed_attempts,
            round.status == old(round).status,
            round.points == old(round).points,
            before.word == word_of(letters),
            before.hidden == mask_of(letters),
            forall|j: int|
                0 <= j < n ==> (#[trigger] round.hidden_word@[j]).character == letters[j].character,
            forall|j: int|
                0 <= j < i ==> (#[trigger] round.hidden_word@[j]).is_hidden == (letters[j].is_hidden
                    && !same_letter(letters[j].character, guess)),
            forall|j: int| i <= j < n ==> #[trigger] round.hidden_word@[j] == letters[j],
            0 <= found <= i,
            found == found_by(before.word.take(i as int), before.hidden.take(i as int), guess),
            in_word == among(before.word.take(i as int), guess),
            all_guessed == all_revealed(uncover(before.word, before.hidden, guess).take(i as int)),
        decreases n - i,
    {
        let letter = round.hidden_word[i];
        proof {
            lemma_among_next(before.word, i as int, guess);
            lemma_found_by_next(before.word, before.hidden, i as int, guess);
            lemma_all_revealed_next(uncover(before.word, before.hidden, guess), i as int);
        }
        if letters_match(letter.character, guess) {
            in_word = true;
            if letter.is_hidden {
                round.hidden_word.set(i, HiddenChar { character: letter.character, is_hidden: false });
                found += 1;
            }
        } else if letter.is_hidden {
            all_guessed = false;
        }
        i += 1;
    }
    proof {
        assert(before.word.take(n as int) =~= before.word);
        assert(before.hidden.take(n as int) =~= before.hidden);
        let shown = uncover(before.word, before.hidden, guess);
        assert(shown.take(n as int) =~= shown);
        assert(word_of(round.hidden_word@) =~= before.word);
        assert(mask_of(round.hidden_word@) =~= shown);
        lemma_uncover_adds_found(before.word, before.hidden, guess);
        lemma_revealed_count_bound(shown);
        lemma_after_guess_wf(before, guess);
        lemma_found_is_in_word(before.word, before.hidden, guess);
    }
    let outcome = if found > 0 {
        round.points += found;
        GuessOutcome::Correct
    } else if in_word || was_tried(&round.failed_attempts, guess) {
        GuessOutcome::Repeated
    } else {
        round.failed_attempts.push(guess);
        GuessOutcome::Wrong
    };
    round.status = if all_guessed {
        RoundStatus::Won
    } else if round.failed_attempts.len() >= MAX_FAILED_ATTEMPTS as usize {
        RoundStatus::Lost
    } else {
        RoundStatus::Ongoing
    };
    outcome
}

/// The sign shown in place of a letter that is still hidden.
pub const PLACEHOLDER: char = '_';

/// The line that shows a round's progress: for each letter of the word, in order, the
/// letter itself if it has been found and the placeholder if not, followed by one space.
pub open spec fn progress_text(word: Seq<char>, hidden: Seq<bool>) -> Seq<char> {
    Seq::new(
        2 * word.len(),
        |k: int|
            if k % 2 == 1 {
                ' '
            } else if hidden[k / 2] {
                PLACEHOLDER
            } else {
                word[k / 2]
            },
    )
}

/// Returns the word of a round, whatever has been found of it.
pub fn get_hidden_word(round: &RoundProgress) -> (word: String)
    ensures
        word@ == round@.word,
{
    let mut word = String::new();
    let mut i: usize = 0;
    while i < round.hidden_word.len()
        invariant
            i <= round.hidden_word.len(),
            word@ == round@.word.take(i as int),
        decreases round.hidden_word.len() - i,
    {
        word.push(round.hidden_word[i].character);
        assert(round@.word.take(i as int + 1) =~= round@.word.take(i as int).push(
            round@.word[i as int],
        ));
        i += 1;
    }
    assert(round@.word.take(i as int) =~= round@.word);
    word
}

/// Renders the progress of a round as one line of text.
pub fn render_progress(round: &RoundProgress) -> (text: String)
    ensures
        text@ == progress_text(round@.word, round@.hidden),
        text@.len() == 2 * round.hidden_word@.len(),
{
    let mut text = String::new();
    let mut i: usize = 0;
    while i < round.hidden_word.len()
        invariant
            i <= round.hidden_word.len(),
            text@ == progress_text(round@.word, round@.hidden).take(2 * i),
        decreases round.hidden_word.len() - i,
    {
        let letter = round.hidden_word[i];
        if letter.is_hidden {
            text.push(PLACEHOLDER);
        } else {
            text.push(letter.character);
        }
        text.push(' ');
        assert(text@ =~= progress_text(round@.word, round@.hidden).take(2 * (i + 1)));
        i += 1;
    }
    assert(text@ =~= progress_text(round@.word, round@.hidden));
    text
}

/// What is shown of a round between two guesses.
pub struct RoundDisplay {
    /// The number of wrong letters so far.
    pub failed_attempts: usize,
    /// The progress line.
    pub progress: String,
    /// The status, by which the display announces a round that was won or lost.
    pub status: RoundStatus,
    /// The word itself, given away only once the round has ended.
    pub answer: Option<String>,
}

/// Gathers what is to be shown of a round: the count of failed attempts, the progress
/// line, the status, and the word if the round has ended.
pub fn show_progress(round: &RoundProgress) -> (shown: RoundDisplay)
    ensures
        shown.failed_attempts == round@.failed.len(),
        shown.progress@ == progress_text(round@.word, round@.hidden),
        shown.status == round@.status,
        round@.status == RoundStatus::Ongoing ==> shown.answer is None,
        round@.status != RoundStatus::Ongoing ==> shown.answer is Some && shown.answer->0@
            == round@.word,
{
    let answer = if is_round_complete(&round.status) {
        Some(get_hidden_word(round))
    } else {
        None
    };
    RoundDisplay {
        failed_attempts: round.failed_attempts.len(),
        progress: render_progress(round),
        status: round.status,
        answer,
    }
}

} // verus!
