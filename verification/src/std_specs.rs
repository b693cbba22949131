//! What is taken for granted of the standard library, where `vstd` says
//! nothing of a function that the library calls.

use vstd::prelude::*;

verus! {

/// `String::push` appends one character to the end of the string and
/// leaves the rest as it was. This is what its documentation says; it is
/// believed here, not proved.
pub assume_specification[ String::push ](s: &mut String, c: char)
    ensures
        final(s)@ == old(s)@.push(c),
;

} // verus!
