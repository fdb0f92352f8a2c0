//! The word source: from the lines of a word file to the list that a game draws from.

use rand::Rng;
use vstd::prelude::*;

verus! {

/// The texts of a list of strings.
pub open spec fn texts(words: Seq<String>) -> Seq<Seq<char>> {
    Seq::new(words.len(), |i: int| words[i]@)
}

/// The lines that hold a word: those that are not empty, in their order.
pub open spec fn usable(lines: Seq<Seq<char>>) -> Seq<Seq<char>> {
    lines.filter(|line: Seq<char>| line.len() > 0)
}

/// Calls `rand::Rng::shuffle` on the generator that `rand::thread_rng` hands out.
/// The order that comes out is left open, as it hangs on chance.  What is claimed is that
/// the list holds the same words as before, each as often as before: the shuffle does
/// nothing to a slice but swap two of its elements, over and over.
#[verifier::external_body]
#[allow(deprecated)]
fn shuffle(words: &mut Vec<String>)
    ensures
        texts(final(words)@).to_multiset() == texts(old(words)@).to_multiset(),
{
    rand::thread_rng().shuffle(words);
}

/// Makes the word list of a game from the lines of a word file: empty lines are left
/// out, and the words are put in a random order.
pub fn get_list(lines: Vec<String>) -> (words: Vec<String>)
    ensures
        texts(words@).to_multiset() == usable(texts(lines@)).to_multiset(),
{
    let mut words: Vec<String> = Vec::new();
    let mut i: usize = 0;
    while i < lines.len()
        invariant
            i <= lines.len(),
            texts(words@) == usable(texts(lines@).take(i as int)),
        decreases lines.len() - i,
    {
        let ghost kept = texts(words@);
        let ghost seen = texts(lines@).take(i as int);
        if !lines[i].as_str().is_empty() {
            words.push(lines[i].clone());
            assert(texts(words@) =~= kept.push(lines@[i as int]@));
        }
        proof {
            assert(texts(lines@).take(i as int + 1) =~= seen.push(lines@[i as int]@));
            seen.lemma_filter_push(lines@[i as int]@, |line: Seq<char>| line.len() > 0);
        }
        i += 1;
    }
    assert(texts(lines@).take(i as int) =~= texts(lines@));
    shuffle(&mut words);
    words
}

} // verus!
