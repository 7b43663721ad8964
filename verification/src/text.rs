//! Text transformations that come from outside: Unicode lower-casing (std) and
//! kebab-casing (`heck`).

use heck::ToKebabCase;
use vstd::prelude::*;

verus! {

/// What `str::to_lowercase` returns for the characters `s`: their Unicode
/// lowercase mapping (context-dependent for a final capital sigma).
pub uninterp spec fn lowercase(s: Seq<char>) -> Seq<char>;

/// Calls `str::to_lowercase`. Claimed: the result is `lowercase` of the input;
/// the mapping depends on the characters alone (not on a locale).
#[verifier::external_body]
pub(crate) fn to_lowercase(s: &str) -> (r: String)
    ensures
        r@ == lowercase(s@),
{
    s.to_lowercase()
}

/// What `heck::ToKebabCase::to_kebab_case` returns for the characters `s`: the
/// words of `s` in lower case, joined by '-'.
pub uninterp spec fn kebab_case(s: Seq<char>) -> Seq<char>;

/// Calls `heck::ToKebabCase::to_kebab_case` on a `str`. Claimed: the result is
/// `kebab_case` of the input, a function of the characters alone.
#[verifier::external_body]
pub(crate) fn to_kebab_case(s: &str) -> (r: String)
    ensures
        r@ == kebab_case(s@),
{
    s.to_kebab_case()
}

} // verus!
