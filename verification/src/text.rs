//! The two things the quiz asks of a piece of text: strip the whitespace round
//! it, and tell whether two pieces are the same.

use vstd::prelude::*;

verus! {

/// What `str::trim` leaves of a piece of text: the text without the
/// whitespace, in Unicode's sense of the word, at its start and at its end.
pub uninterp spec fn trimmed(text: Seq<char>) -> Seq<char>;

/// `str::trim`: the slice of `text` between its leading and its trailing
/// whitespace. The contract only gives that slice its name.
#[verifier::external_body]
pub(crate) fn trim(text: &str) -> (core: &str)
    ensures
        core@ == trimmed(text@),
{
    text.trim()
}

/// `==` on `str`: whether the two hold the same characters in the same order.
#[verifier::external_body]
pub(crate) fn same_text(left: &str, right: &str) -> (same: bool)
    ensures
        same == (left@ == right@),
{
    left == right
}

} // verus!
