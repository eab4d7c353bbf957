//! Names that endpoint declarations give rise to: the endpoint type's name,
//! the request path of a router variant, and the HTTP method of an endpoint.
use vstd::prelude::*;

verus! {

/// `s` in UpperCamelCase, as `heck` converts it.
pub uninterp spec fn pascal_case(s: Seq<char>) -> Seq<char>;

/// `s` in snake_case, as `heck` converts it.
pub uninterp spec fn snake_case(s: Seq<char>) -> Seq<char>;

/// Trusted: renders `heck::AsPascalCase(s)`; the result depends on `s` alone.
#[verifier::external_body]
fn to_pascal_case(s: &str) -> (res: String)
    ensures
        res@ == pascal_case(s@),
{
    heck::AsPascalCase(s).to_string()
}

/// Trusted: renders `heck::AsSnekCase(s)`; the result depends on `s` alone.
#[verifier::external_body]
fn to_snake_case(s: &str) -> (res: String)
    ensures
        res@ == snake_case(s@),
{
    heck::AsSnekCase(s).to_string()
}

/// The name of the type generated for the endpoint function `fn_name`:
/// `Endpoint` followed by the function's name in UpperCamelCase.
pub fn endpoint_struct_name(fn_name: &str) -> (res: String)
    ensures
        res@ == "Endpoint"@ + pascal_case(fn_name@),
{
    let mut name = String::from_str("Endpoint");
    let tail = to_pascal_case(fn_name);
    name.append(tail.as_str());
    name
}

/// The request path that reaches the router variant `variant`: its name in
/// snake_case.
pub fn route_path(variant: &str) -> (res: String)
    ensures
        res@ == snake_case(variant@),
{
    to_snake_case(variant)
}

/// The HTTP method name an endpoint is documented with: `PUT` when it is
/// idempotent, `POST` otherwise.
pub open spec fn method_name(idempotent: bool) -> Seq<char> {
    if idempotent {
        "PUT"@
    } else {
        "POST"@
    }
}

/// The HTTP method name of an endpoint of the given idempotence.
pub fn endpoint_method(idempotent: bool) -> (res: String)
    ensures
        res@ == method_name(idempotent),
{
    if idempotent {
        String::from_str("PUT")
    } else {
        String::from_str("POST")
    }
}

} // verus!
