//! The one case conversion the generated names need: UpperCamelCase.

use vstd::prelude::*;

verus! {

/// The UpperCamelCase form of a text; a function of the text alone.
pub uninterp spec fn upper_camel(s: Seq<char>) -> Seq<char>;

/// Relies on heck's CamelCase conversion: it depends on the characters of
/// the text alone, and an empty text stays empty.
#[verifier::external_body]
pub(crate) fn to_upper_camel(s: &str) -> (r: String)
    ensures
        r@ == upper_camel(s@),
        s@.len() == 0 ==> r@.len() == 0,
{
    heck::CamelCase::to_camel_case(s)
}

} // verus!
