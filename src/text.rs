use vstd::prelude::*;

verus! {

/// Relies on `String::push`, which std documents as appending the given
/// `char` to the end of the string.
pub assume_specification[ String::push ](s: &mut String, ch: char)
    ensures
        final(s)@ == old(s)@.push(ch),
;

} // verus!
