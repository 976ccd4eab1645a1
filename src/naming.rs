//! Identifier casing, through the `convert_case` crate.

use convert_case::Casing;
use vstd::prelude::*;

verus! {

/// What `convert_case` makes of a string read as snake case (words split at
/// underscores only) and written in snake case.
pub uninterp spec fn snake_case_of(s: Seq<char>) -> Seq<char>;

/// What `convert_case` makes of a string read as snake case and written in
/// Pascal case.
pub uninterp spec fn pascal_case_of(s: Seq<char>) -> Seq<char>;

/// Relies on convert_case's `Casing::from_case(Case::Snake)` followed by
/// `StateConverter::to_case(Case::Snake)`: the result depends on the
/// characters of `s` alone. Splitting at underscores only keeps digits inside
/// a word, so `crc16` stays `crc16`.
#[verifier::external_body]
fn to_snake_case(s: &str) -> (r: String)
    ensures
        r@ == snake_case_of(s@),
{
    s.from_case(convert_case::Case::Snake).to_case(convert_case::Case::Snake)
}

/// Relies on convert_case's `Casing::from_case(Case::Snake)` followed by
/// `StateConverter::to_case(Case::Pascal)`: the result depends on the
/// characters of `s` alone.
#[verifier::external_body]
pub(crate) fn to_pascal_case(s: &str) -> (r: String)
    ensures
        r@ == pascal_case_of(s@),
{
    s.from_case(convert_case::Case::Snake).to_case(convert_case::Case::Pascal)
}

/// A name is in snake case when converting it to snake case leaves it as it
/// is: lower-case words joined by underscores.
pub open spec fn is_snake_case_spec(name: Seq<char>) -> bool {
    snake_case_of(name) == name
}

/// Whether `name` is already in lower snake case.
pub fn is_snake_case(name: &String) -> (r: bool)
    ensures
        r == is_snake_case_spec(name@),
{
    let converted = to_snake_case(name.as_str());
    converted.eq(name)
}

} // verus!
