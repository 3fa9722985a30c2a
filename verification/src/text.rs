//! String building blocks that the rest of the crate shares.

use vstd::prelude::*;

verus! {

/// `String::push` appends one character to the end of the string and
/// leaves what was there before in place.
pub assume_specification[ String::push ](s: &mut String, c: char)
    ensures
        final(s)@ == old(s)@.push(c),
;

/// Whether `needle` occurs in `hay` as a contiguous run of characters.
pub open spec fn contains_text(hay: Seq<char>, needle: Seq<char>) -> bool {
    exists|start: int|
        0 <= start && start + needle.len() <= hay.len() && #[trigger] hay.subrange(
            start,
            start + needle.len(),
        ) == needle
}

} // verus!
