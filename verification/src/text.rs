//! Comparison of texts.

use vstd::prelude::*;

verus! {

/// `==` on `str` of the standard library: true exactly when both slices hold
/// the same sequence of characters.
#[verifier::external_body]
pub(crate) fn text_equals(a: &str, b: &str) -> (r: bool)
    ensures
        r == (a@ == b@),
{
    a == b
}

} // verus!
