//! What the player types: from a line of text to a guess, and from a line to the
//! decision to go on.

use vstd::prelude::*;
use crate::letters::{
    char_is_ascii_letter, char_is_whitespace, is_ascii_letter, is_whitespace, lowercase,
    to_lowercase,
};

verus! {

/// The answer to a line that is no guess.
pub const INVALID: char = '!';

/// The digit by which the player leaves the game.
pub const QUIT: char = '0';

/// `s` without the white space at its start.
pub open spec fn trim_start(s: Seq<char>) -> Seq<char>
    decreases s.len(),
{
    if s.len() > 0 && is_whitespace(s.first()) {
        trim_start(s.drop_first())
    } else {
        s
    }
}

/// `s` without the white space at its end.
pub open spec fn trim_end(s: Seq<char>) -> Seq<char>
    decreases s.len(),
{
    if s.len() > 0 && is_whitespace(s.last()) {
        trim_end(s.drop_last())
    } else {
        s
    }
}

/// `s` without the white space at either end.
pub open spec fn trimmed(s: Seq<char>) -> Seq<char> {
    trim_end(trim_start(s))
}

/// What a line of input means: once trimmed it must be one character, which is a guess
/// if it is an ASCII letter (taken in lower case) and the wish to leave if it is the
/// digit zero.  Every other line is invalid.
pub open spec fn evaluate(input: Seq<char>) -> char {
    let rest = trimmed(input);
    if rest.len() != 1 {
        INVALID
    } else if is_ascii_letter(rest[0]) {
        lowercase(rest[0])
    } else if rest[0] == QUIT {
        QUIT
    } else {
        INVALID
    }
}

/// The characters of `s` that are not white space, in order.
pub open spec fn solid(s: Seq<char>) -> Seq<char>
    decreases s.len(),
{
    if s.len() == 0 {
        s
    } else if is_whitespace(s.last()) {
        solid(s.drop_last())
    } else {
        solid(s.drop_last()).push(s.last())
    }
}

/// How `solid` treats the first character.
pub proof fn lemma_solid_first(s: Seq<char>)
    requires
        s.len() > 0,
    ensures
        solid(s) == if is_whitespace(s.first()) {
            solid(s.drop_first())
        } else {
            seq![s.first()] + solid(s.drop_first())
        },
    decreases s.len(),
{
    if s.len() == 1 {
        assert(s.drop_last() =~= Seq::<char>::empty());
        assert(s.drop_first() =~= Seq::<char>::empty());
        assert(solid(s.drop_last()) =~= Seq::<char>::empty());
        assert(solid(s.drop_last()).push(s.last()) =~= seq![s.first()] + solid(s.drop_first()));
    } else {
        lemma_solid_first(s.drop_last());
        assert(s.drop_last().drop_first() =~= s.drop_first().drop_last());
        assert(s.drop_last().first() == s.first());
        assert(s.drop_first().last() == s.last());
        let rest = solid(s.drop_first().drop_last());
        assert((seq![s.first()] + rest).push(s.last()) =~= seq![s.first()] + rest.push(s.last()));
    }
}

/// Trimming the start drops white space only, and leaves no white space in front.
pub proof fn lemma_trim_start(s: Seq<char>)
    ensures
        solid(trim_start(s)) == solid(s),
        trim_start(s).len() > 0 ==> !is_whitespace(trim_start(s).first()),
    decreases s.len(),
{
    if s.len() > 0 && is_whitespace(s.first()) {
        lemma_trim_start(s.drop_first());
        lemma_solid_first(s);
    }
}

/// Trimming the end drops white space only, leaves none at the end, and keeps the start.
pub proof fn lemma_trim_end(s: Seq<char>)
    ensures
        solid(trim_end(s)) == solid(s),
        trim_end(s).len() > 0 ==> !is_whitespace(trim_end(s).last()) && trim_end(s).first()
            == s.first(),
    decreases s.len(),
{
    if s.len() > 0 && is_whitespace(s.last()) {
        lemma_trim_end(s.drop_last());
    }
}

/// A text that starts with a solid character keeps it in front.
pub proof fn lemma_solid_keeps_first(s: Seq<char>)
    requires
        s.len() > 0,
        !is_whitespace(s.first()),
    ensures
        solid(s).len() >= 1,
        solid(s).first() == s.first(),
    decreases s.len(),
{
    let rest = s.drop_last();
    if s.len() > 1 {
        lemma_solid_keeps_first(rest);
        assert(rest.first() == s.first());
    } else {
        assert(solid(rest).len() == 0);
    }
}

/// A trimmed line is a single character exactly when the line holds a single solid
/// character, and then it is that character.
pub proof fn lemma_trimmed_single(s: Seq<char>)
    ensures
        trimmed(s).len() == 1 <==> solid(s).len() == 1,
        trimmed(s).len() == 1 ==> trimmed(s)[0] == solid(s)[0],
{
    let rest = trimmed(s);
    lemma_trim_start(s);
    lemma_trim_end(trim_start(s));
    if rest.len() >= 1 {
        lemma_solid_keeps_first(rest);
    }
    if rest.len() == 1 {
        assert(solid(rest.drop_last()).len() == 0);
    } else if rest.len() >= 2 {
        lemma_solid_keeps_first(rest.drop_last());
    }
}

/// Reads one line of input as a guess: the letter in lower case, `QUIT`, or `INVALID`.
pub fn evaluate_input(input: &str) -> (answer: char)
    ensures
        answer == evaluate(input@),
{
    let mut count: u8 = 0;
    let mut first: char = INVALID;
    for ch in it: input.chars()
        invariant
            it.seq() == input@,
            count <= 2,
            count < 2 ==> count == solid(input@.take(it.index())).len(),
            count == 2 ==> solid(input@.take(it.index())).len() >= 2,
            count >= 1 ==> first == solid(input@.take(it.index())).first(),
    {
        assert(input@.take(it.index() + 1).drop_last() =~= input@.take(it.index()));
        if !char_is_whitespace(ch) {
            if count == 0 {
                first = ch;
            }
            if count < 2 {
                count += 1;
            }
        }
    }
    proof {
        assert(input@.take(input@.len() as int) =~= input@);
        lemma_trimmed_single(input@);
    }
    if count != 1 {
        INVALID
    } else if char_is_ascii_letter(first) {
        to_lowercase(first)
    } else if first == QUIT {
        QUIT
    } else {
        INVALID
    }
}

/// What one attempt to read a guess comes to.  A line that was read is evaluated; where
/// nothing could be read the player is taken to leave, so that a closed input ends the
/// game.  On `INVALID` the caller asks again.
pub fn user_guess(line: Option<&str>) -> (answer: char)
    ensures
        answer == match line {
            Some(text) => evaluate(text@),
            None => QUIT,
        },
{
    match line {
        Some(text) => evaluate_input(text),
        None => QUIT,
    }
}

/// Whether a line asks for another round: it does unless it is empty or starts with
/// `QUIT` or with `INVALID`.
pub open spec fn asks_for_more(line: Seq<char>) -> bool {
    line.len() > 0 && line.first() != QUIT && line.first() != INVALID
}

/// Decides after a round whether the game goes on.  A line that could not be read
/// stops the game.
pub fn play_or_stop(line: Option<&str>) -> (go_on: bool)
    ensures
        go_on == match line {
            Some(text) => asks_for_more(text@),
            None => false,
        },
{
    match line {
        Some(text) => {
            let mut chars = text.chars();
            match chars.next() {
                Some(first) => first != QUIT && first != INVALID,
                None => false,
            }
        },
        None => false,
    }
}

} // verus!
