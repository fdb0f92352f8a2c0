//! What holds of the game whatever is played: laws over the rules of a round and over
//! the reading of input, each proved from the definitions that the contracts use.

use vstd::prelude::*;
use crate::input::{
    evaluate, lemma_trimmed_single, solid, trimmed, INVALID, QUIT,
};
use crate::letters::{is_ascii_letter, is_whitespace, lowercase, same_letter};
use crate::round::{
    after_guess, after_guesses, all_revealed, among, found_by, lemma_after_guess_wf,
    lemma_found_is_in_word, lemma_new_round_wf, new_round, outcome_of, progress_text,
    uncover, GuessOutcome, RoundStatus, RoundView, MAX_FAILED_ATTEMPTS, PLACEHOLDER,
};

verus! {

/// The progress line shows every letter of the word once: the sign for the letter at
/// place `i` stands at place `2 * i`, and a space follows it.  The sign is the
/// placeholder while the letter is hidden and the letter itself afterwards.
pub proof fn law_progress_shows_each_letter(word: Seq<char>, hidden: Seq<bool>)
    requires
        hidden.len() == word.len(),
    ensures
        progress_text(word, hidden).len() == 2 * word.len(),
        forall|i: int|
            0 <= i < word.len() ==> #[trigger] progress_text(word, hidden)[2 * i] == if hidden[i] {
                PLACEHOLDER
            } else {
                word[i]
            },
        forall|i: int| 0 <= i < word.len() ==> #[trigger] progress_text(word, hidden)[2 * i + 1] == ' ',
{
}

/// Playing keeps a round well formed, whatever is guessed and in whatever order.
pub proof fn law_play_keeps_well_formed(round: RoundView, guesses: Seq<char>)
    requires
        round.wf(),
    ensures
        after_guesses(round, guesses).wf(),
        after_guesses(round, guesses).word == round.word,
    decreases guesses.len(),
{
    if guesses.len() > 0 {
        law_play_keeps_well_formed(round, guesses.drop_last());
        lemma_after_guess_wf(after_guesses(round, guesses.drop_last()), guesses.last());
    }
}

/// A round is won exactly when none of its letters is hidden any more.
pub proof fn law_won_when_all_revealed(word: Seq<char>, guesses: Seq<char>)
    ensures
        after_guesses(new_round(word), guesses).status == RoundStatus::Won <==> all_revealed(
            after_guesses(new_round(word), guesses).hidden,
        ),
{
    lemma_new_round_wf(word);
    law_play_keeps_well_formed(new_round(word), guesses);
}

/// A letter that is shown, or that one of the guesses names, is shown after the guesses,
/// unless the round was lost on the way.
proof fn lemma_guessed_letter_shows(round: RoundView, guesses: Seq<char>, i: int)
    requires
        round.wf(),
        0 <= i < round.word.len(),
        !round.hidden[i] || among(guesses, round.word[i]),
        after_guesses(round, guesses).status != RoundStatus::Lost,
    ensures
        !after_guesses(round, guesses).hidden[i],
    decreases guesses.len(),
{
    if guesses.len() > 0 {
        let earlier = guesses.drop_last();
        let prev = after_guesses(round, earlier);
        law_play_keeps_well_formed(round, earlier);
        if prev.status == RoundStatus::Won {
            assert(!prev.hidden[i]);
        } else if !round.hidden[i] || among(earlier, round.word[i]) {
            lemma_guessed_letter_shows(round, earlier, i);
        } else {
            let k = choose|k: int|
                0 <= k < guesses.len() && same_letter(#[trigger] guesses[k], round.word[i]);
            if k < earlier.len() {
                assert(same_letter(earlier[k], round.word[i]));
            }
        }
    }
}

/// Guessing every letter of the word ends the round, in whatever order the guesses come
/// and whatever else is guessed between them: the round is won, unless the wrong letters
/// reached the limit first.
pub proof fn law_guessing_every_letter_wins(word: Seq<char>, guesses: Seq<char>)
    requires
        forall|i: int| 0 <= i < word.len() ==> among(guesses, #[trigger] word[i]),
    ensures
        after_guesses(new_round(word), guesses).status != RoundStatus::Ongoing,
        after_guesses(new_round(word), guesses).failed.len() < MAX_FAILED_ATTEMPTS
            ==> after_guesses(new_round(word), guesses).status == RoundStatus::Won,
{
    let start = new_round(word);
    let end = after_guesses(start, guesses);
    lemma_new_round_wf(word);
    law_play_keeps_well_formed(start, guesses);
    if end.status != RoundStatus::Lost {
        assert forall|i: int| 0 <= i < end.hidden.len() implies !end.hidden[i] by {
            lemma_guessed_letter_shows(start, guesses, i);
        }
    }
}

/// A round is lost exactly when the wrong letters have reached the limit while a letter
/// is still hidden; with one wrong letter fewer it is not lost.
pub proof fn law_lost_at_the_limit(round: RoundView)
    requires
        round.wf(),
    ensures
        round.status == RoundStatus::Lost <==> round.failed.len() == MAX_FAILED_ATTEMPTS
            && !all_revealed(round.hidden),
        round.failed.len() < MAX_FAILED_ATTEMPTS ==> round.status != RoundStatus::Lost,
{
}

/// A wrong letter that was not tried before counts once, and it loses the round exactly
/// when it is the one that reaches the limit.
pub proof fn law_wrong_letter_that_reaches_the_limit_loses(round: RoundView, guess: char)
    requires
        round.wf(),
        round.status == RoundStatus::Ongoing,
        !among(round.word, guess),
        !among(round.failed, guess),
    ensures
        outcome_of(round, guess) == GuessOutcome::Wrong,
        after_guess(round, guess).failed == round.failed.push(guess),
        after_guess(round, guess).hidden == round.hidden,
        after_guess(round, guess).points == round.points,
        after_guess(round, guess).status == if round.failed.len() + 1 == MAX_FAILED_ATTEMPTS {
            RoundStatus::Lost
        } else {
            RoundStatus::Ongoing
        },
{
    lemma_found_is_in_word(round.word, round.hidden, guess);
    assert forall|i: int| 0 <= i < round.word.len() implies !same_letter(
        #[trigger] round.word[i],
        guess,
    ) by {
    }
    assert(uncover(round.word, round.hidden, guess) =~= round.hidden);
}

/// Guessing a letter a second time changes nothing: it shows no letter, brings no point
/// and counts no failed attempt.
pub proof fn law_repeated_guess_changes_nothing(round: RoundView, guess: char)
    ensures
        after_guess(after_guess(round, guess), guess) == after_guess(round, guess),
        after_guess(after_guess(round, guess), guess).hidden == after_guess(round, guess).hidden,
        after_guess(after_guess(round, guess), guess).points == after_guess(round, guess).points,
        after_guess(after_guess(round, guess), guess).failed == after_guess(round, guess).failed,
        outcome_of(after_guess(round, guess), guess) == GuessOutcome::Repeated || outcome_of(
            after_guess(round, guess),
            guess,
        ) == GuessOutcome::Ignored,
{
    let once = after_guess(round, guess);
    if round.status == RoundStatus::Ongoing {
        lemma_nothing_left_to_find(round.word, round.hidden, guess);
        assert(uncover(once.word, once.hidden, guess) =~= once.hidden);
        if !(among(round.word, guess) || among(round.failed, guess)) {
            assert(same_letter(once.failed[once.failed.len() - 1], guess));
        }
    }
}

/// A guess finds nothing where the same guess has been applied.
proof fn lemma_nothing_left_to_find(word: Seq<char>, hidden: Seq<bool>, guess: char)
    ensures
        found_by(word, uncover(word, hidden, guess), guess) == 0,
    decreases word.len(),
{
    if word.len() > 0 && hidden.len() == word.len() {
        lemma_nothing_left_to_find(word.drop_last(), hidden.drop_last(), guess);
        assert(uncover(word, hidden, guess).drop_last() =~= uncover(
            word.drop_last(),
            hidden.drop_last(),
            guess,
        ));
    }
}

/// A guess never takes anything back: a round that has ended stays as it is, a letter
/// that is shown stays shown, and neither the points nor the failed attempts go down.
pub proof fn law_guess_takes_nothing_back(round: RoundView, guess: char)
    requires
        round.wf(),
    ensures
        round.status != RoundStatus::Ongoing ==> after_guess(round, guess) == round,
        after_guess(round, guess).word == round.word,
        after_guess(round, guess).points >= round.points,
        after_guess(round, guess).failed.len() >= round.failed.len(),
        forall|i: int|
            0 <= i < round.hidden.len() && !round.hidden[i] ==> !after_guess(round, guess).hidden[i],
{
}

/// The solid characters of two texts put together are those of the first, then those
/// of the second.
proof fn lemma_solid_of_joined(a: Seq<char>, b: Seq<char>)
    ensures
        solid(a + b) == solid(a) + solid(b),
    decreases b.len(),
{
    if b.len() == 0 {
        assert(a + b =~= a);
        assert(solid(a) + solid(b) =~= solid(a));
    } else {
        lemma_solid_of_joined(a, b.drop_last());
        assert((a + b).drop_last() =~= a + b.drop_last());
        assert((a + b).last() == b.last());
        if !is_whitespace(b.last()) {
            assert((solid(a) + solid(b.drop_last())).push(b.last()) =~= solid(a) + solid(
                b.drop_last(),
            ).push(b.last()));
        }
    }
}

/// Blank text holds no solid character.
proof fn lemma_solid_of_blank(s: Seq<char>)
    requires
        forall|i: int| 0 <= i < s.len() ==> is_whitespace(#[trigger] s[i]),
    ensures
        solid(s).len() == 0,
    decreases s.len(),
{
    if s.len() > 0 {
        lemma_solid_of_blank(s.drop_last());
    }
}

/// White space around a character, and the case of a letter, make no difference to what
/// a line means: the line is read as the character alone would be, a letter in lower case.
pub proof fn law_padding_and_case_are_ignored(before: Seq<char>, c: char, after: Seq<char>)
    requires
        forall|i: int| 0 <= i < before.len() ==> is_whitespace(#[trigger] before[i]),
        forall|i: int| 0 <= i < after.len() ==> is_whitespace(#[trigger] after[i]),
        !is_whitespace(c),
    ensures
        evaluate(before + seq![c] + after) == evaluate(seq![c]),
        evaluate(seq![c]) == if is_ascii_letter(c) {
            lowercase(c)
        } else if c == QUIT {
            QUIT
        } else {
            INVALID
        },
        is_ascii_letter(c) ==> evaluate(seq![c]) == evaluate(seq![lowercase(c)]),
{
    let line = before + seq![c] + after;
    lemma_solid_of_blank(before);
    lemma_solid_of_blank(after);
    lemma_solid_of_joined(before + seq![c], after);
    lemma_solid_of_joined(before, seq![c]);
    lemma_solid_of_single(c);
    assert(solid(line) =~= seq![c]);
    lemma_trimmed_single(line);
    lemma_trimmed_single(seq![c]);
    if is_ascii_letter(c) {
        lemma_solid_of_single(lowercase(c));
        lemma_trimmed_single(seq![lowercase(c)]);
    }
}

/// A single solid character is all that is solid in it.
proof fn lemma_solid_of_single(c: char)
    requires
        !is_whitespace(c),
    ensures
        solid(seq![c]) == seq![c],
{
    assert(seq![c].drop_last() =~= Seq::<char>::empty());
    assert(solid(seq![c].drop_last()).push(c) =~= seq![c]);
}

/// A line is invalid exactly when, once trimmed, it is not one single character, or that
/// character is neither an ASCII letter nor the digit zero.  So an empty line, a blank
/// line, a line with two characters or more between its white space, a digit other than
/// zero and a punctuation mark are all invalid.
pub proof fn law_invalid_input(line: Seq<char>)
    ensures
        evaluate(line) == INVALID <==> !(trimmed(line).len() == 1 && (is_ascii_letter(
            trimmed(line)[0],
        ) || trimmed(line)[0] == QUIT)),
        solid(line).len() != 1 ==> evaluate(line) == INVALID,
        line.len() == 0 ==> evaluate(line) == INVALID,
        (forall|i: int| 0 <= i < line.len() ==> is_whitespace(#[trigger] line[i])) ==> evaluate(line)
            == INVALID,
{
    lemma_trimmed_single(line);
    if forall|i: int| 0 <= i < line.len() ==> is_whitespace(#[trigger] line[i]) {
        lemma_solid_of_blank(line);
    }
}

} // verus!
