//! Case conversion of type and field names, done by the `convert_case` crate.

use vstd::prelude::*;
use convert_case::Casing;

verus! {

/// The naming styles the generators convert names into.
#[derive(Debug, Clone, Copy, PartialEq, Eq)]
pub enum TextCase {
    /// `PascalCase`
    Pascal,
    /// `snake_case`
    Snake,
    /// `kebab-case`
    Kebab,
    /// `camelCase`
    Camel,
    /// `Title Case`
    Title,
}

/// What `convert_case`'s `Casing::to_case` makes of `s` in the style `case`.
pub uninterp spec fn case_converted(s: Seq<char>, case: TextCase) -> Seq<char>;

/// `s` converted into `case`.
///
/// Trusted: calls `convert_case::Casing::to_case`, which splits `s` into
/// words at its default boundaries and joins them in the pattern and with
/// the delimiter of the case. Its result depends on `s` and the case alone;
/// the contract gives it a name and says no more of it.
#[verifier::external_body]
pub(crate) fn to_case(s: &str, case: TextCase) -> (r: String)
    ensures
        r@ == case_converted(s@, case),
{
    match case {
        TextCase::Pascal => s.to_case(convert_case::Case::Pascal),
        TextCase::Snake => s.to_case(convert_case::Case::Snake),
        TextCase::Kebab => s.to_case(convert_case::Case::Kebab),
        TextCase::Camel => s.to_case(convert_case::Case::Camel),
        TextCase::Title => s.to_case(convert_case::Case::Title),
    }
}

} // verus!
