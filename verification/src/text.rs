//! What the standard library's `String` does where the verifier's library is silent.

use vstd::prelude::*;

verus! {

/// `String::push` appends the given character to the end of the string and leaves
/// the rest as it was.  This is taken from the standard library's documentation; it is
/// not proved here.
pub assume_specification[ String::push ](s: &mut String, ch: char)
    ensures
        final(s)@ == old(s)@.push(ch),
;

} // verus!
