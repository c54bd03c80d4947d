//! Case conversion of identifiers, done by the `heck` crate.
use heck::{ToSnakeCase, ToUpperCamelCase};
use vstd::prelude::*;

verus! {

/// What `heck::ToSnakeCase::to_snake_case` returns for a string: a function
/// of the string alone.
pub uninterp spec fn snake_case(s: Seq<char>) -> Seq<char>;

/// What `heck::ToUpperCamelCase::to_upper_camel_case` returns for a string:
/// a function of the string alone.
pub uninterp spec fn upper_camel_case(s: Seq<char>) -> Seq<char>;

/// Calls `heck::ToSnakeCase::to_snake_case` on `s`. Claimed: the result is
/// `snake_case(s@)`; nothing is said of what that is.
#[verifier::external_body]
pub(crate) fn to_snake_case(s: &str) -> (r: String)
    ensures
        r@ == snake_case(s@),
{
    s.to_snake_case()
}

/// Calls `heck::ToUpperCamelCase::to_upper_camel_case` on `s`. Claimed: the
/// result is `upper_camel_case(s@)`; nothing is said of what that is.
#[verifier::external_body]
pub(crate) fn to_upper_camel_case(s: &str) -> (r: String)
    ensures
        r@ == upper_camel_case(s@),
{
    s.to_upper_camel_case()
}

} // verus!
