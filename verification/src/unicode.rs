//! Unicode case folding behind a trusted wrapper. The folded text is a
//! function of the input alone, so it carries a name that contracts can
//! compose over; everything that tests a folded value is ordinary
//! verified code.

use vstd::prelude::*;

verus! {

/// The lowercase folding of a character sequence: what the standard
/// library's Unicode lowercasing returns, as a function of the text alone.
pub uninterp spec fn lower_of(s: Seq<char>) -> Seq<char>;

/// Relies on `str::to_lowercase`: the result depends on the characters
/// alone, and an empty string stays empty.
#[verifier::external_body]
pub fn lowercase(s: &str) -> (r: String)
    ensures
        r@ == lower_of(s@),
        s@.len() == 0 ==> r@.len() == 0,
{
    s.to_lowercase()
}

} // verus!
