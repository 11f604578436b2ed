//! What this crate assumes of the `String` methods that it calls and that
//! vstd leaves without a specification.

use vstd::prelude::*;

verus! {

/// `String::push` of std: appends the character `ch` to the end of `s` and
/// leaves the rest of `s` as it was.
pub assume_specification[ String::push ](s: &mut String, ch: char)
    ensures
        final(s)@ == old(s)@.push(ch),
;

} // verus!
