//! The case conversions the derive applies at expansion time, from `heck`.
//!
//! Each conversion is a pure function of its input: word boundaries found by `heck`'s rules, each
//! word re-cased and re-joined. The rules take pages, so each result is named rather than restated.

use vstd::prelude::*;
use heck::{ToKebabCase, ToLowerCamelCase, ToSnakeCase};

verus! {

/// What `heck::ToSnakeCase::to_snake_case` makes of a string.
pub uninterp spec fn snake_case(s: Seq<char>) -> Seq<char>;

/// What `heck::ToLowerCamelCase::to_lower_camel_case` makes of a string.
pub uninterp spec fn lower_camel_case(s: Seq<char>) -> Seq<char>;

/// What `heck::ToKebabCase::to_kebab_case` makes of a string.
pub uninterp spec fn kebab_case(s: Seq<char>) -> Seq<char>;

/// `heck::ToSnakeCase::to_snake_case`: words joined by `_`, lower case.
#[verifier::external_body]
pub(crate) fn to_snake_case(s: &str) -> (r: String)
    ensures
        r@ == snake_case(s@),
{
    s.to_snake_case()
}

/// `heck::ToLowerCamelCase::to_lower_camel_case`: words run together, each capitalised but the first.
#[verifier::external_body]
pub(crate) fn to_lower_camel_case(s: &str) -> (r: String)
    ensures
        r@ == lower_camel_case(s@),
{
    s.to_lower_camel_case()
}

/// `heck::ToKebabCase::to_kebab_case`: words joined by `-`, lower case.
#[verifier::external_body]
pub(crate) fn to_kebab_case(s: &str) -> (r: String)
    ensures
        r@ == kebab_case(s@),
{
    s.to_kebab_case()
}

} // verus!
