//! An application with one endpoint, `add`, which adds two `i8` and reports
//! an overflow as an error.
//!
//! Its declaration as written names no `auth` handler and its router no
//! `#[assets]` folder, so the code generators refuse it (`MissingAuth`,
//! `MissingAssets`); what is here is the endpoint's logic and the answers it
//! would give, which do not depend on those declarations.
use vstd::prelude::*;
use crate::json::{decode_i8_pair, encode_i32, json_i8_pair, lossy_text, pair_text, text_from_bytes};
use crate::naming::{route_path, snake_case};
use crate::routing::{failed, failure_text, handler_response, EndpointInfo, Response};
use crate::text::{decimal, push_decimal};

verus! {

/// An addition whose sum does not fit in an `i8`.
#[derive(PartialEq, Eq, Structural, Clone, Copy, Debug)]
pub struct AddError {
    pub lhs: i8,
    pub rhs: i8,
}

/// The message of an overflowing addition of `lhs` and `rhs`.
pub open spec fn add_error_text(lhs: int, rhs: int) -> Seq<char> {
    "Failed to add "@ + decimal(lhs) + " & "@ + decimal(rhs)
}

impl AddError {
    /// `Failed to add {lhs} & {rhs}`.
    pub fn message(&self) -> (res: String)
        ensures
            res@ == add_error_text(self.lhs as int, self.rhs as int),
    {
        let mut s = String::from_str("Failed to add ");
        push_decimal(&mut s, self.lhs as i64);
        s.append(" & ");
        push_decimal(&mut s, self.rhs as i64);
        s
    }
}

/// Whether `v` fits in an `i8`.
pub open spec fn fits_i8(v: int) -> bool {
    i8::MIN <= v <= i8::MAX
}

/// Adds the two numbers; an error names them when the sum does not fit.
pub fn add(data: (i8, i8)) -> (res: Result<i8, AddError>)
    ensures
        fits_i8(data.0 + data.1) <==> res is Ok,
        res matches Ok(v) ==> v == data.0 + data.1,
        res matches Err(e) ==> e == (AddError { lhs: data.0, rhs: data.1 }),
{
    match data.0.checked_add(data.1) {
        Some(v) => Ok(v),
        None => Err(AddError { lhs: data.0, rhs: data.1 }),
    }
}

/// The endpoint generated for `add`.
pub struct EndpointAdd;

impl EndpointAdd {
    /// `add` is declared without `idempotent`, so it answers `POST`.
    pub fn is_idempotent() -> (b: bool)
        ensures
            !b,
    {
        false
    }
}

/// The application's router.
pub enum Router {
    Add(EndpointAdd),
}

impl Router {
    /// The endpoints of the router's variants, in order.
    pub fn endpoints() -> (res: Vec<EndpointInfo>)
        ensures
            res@.len() == 1,
            res@[0].path@ == snake_case("Add"@),
            !res@[0].is_idempotent,
            !res@[0].takes_unit,
    {
        let mut v: Vec<EndpointInfo> = Vec::new();
        v.push(
            EndpointInfo {
                path: route_path("Add"),
                is_idempotent: EndpointAdd::is_idempotent(),
                takes_unit: false,
            },
        );
        v
    }
}

/// The status and text of the answer to a request whose body read as
/// `decoded`: 500 when it did not read as a pair, 400 with the error's text
/// when the sum overflows, 200 with the sum's JSON text otherwise.
pub open spec fn add_answer(decoded: Option<(i8, i8)>) -> (u16, Seq<char>) {
    match decoded {
        None => (500, failure_text()),
        Some((a, b)) => if fits_i8(a + b) {
            (200, decimal(a + b))
        } else {
            (400, add_error_text(a as int, b as int))
        },
    }
}

/// A pair whose sum fits in an `i8` is answered with 200 and the sum in
/// decimal, whatever the signs of the operands; only an overflowing pair is
/// answered with 400, naming both operands; a body that is not a pair gets
/// 500.
pub proof fn law_add_answers_sum(a: i8, b: i8)
    ensures
        i8::MIN <= a + b <= i8::MAX ==> add_answer(Some((a, b))) == (200u16, decimal(a + b)),
        !(i8::MIN <= a + b <= i8::MAX) ==> add_answer(Some((a, b))) == (
            400u16,
            "Failed to add "@ + decimal(a as int) + " & "@ + decimal(b as int),
        ),
        add_answer(None).0 == 500,
{
}

/// Answers a request to `add` whose body read as `decoded`.
pub fn respond_add(decoded: Option<(i8, i8)>) -> (r: Response)
    ensures
        r.status == add_answer(decoded).0,
        r.body@ == Some(vstd::utf8::encode_utf8(add_answer(decoded).1)),
        r.content_type is None,
        decoded matches Some((a, b)) ==> (i8::MIN <= a + b <= i8::MAX <==> r.status == 200),
        decoded matches Some((a, b)) ==> (i8::MIN <= a + b <= i8::MAX ==> r.body@ == Some(
            vstd::utf8::encode_utf8(decimal(a + b)),
        )),
        decoded matches Some((a, b)) ==> (!(i8::MIN <= a + b <= i8::MAX) ==> r.status == 400
            && r.body@ == Some(vstd::utf8::encode_utf8(add_error_text(a as int, b as int)))),
        decoded is None ==> r.status == 500,
{
    match decoded {
        None => failed(),
        Some(data) => match self::add(data) {
            Ok(v) => handler_response(Ok(encode_i32(v as i32))),
            Err(e) => handler_response(Err(e.message())),
        },
    }
}

/// Answers a request to `add` with body `body`. A body `[a,b]` is answered
/// with the sum, or with 400 and the error's text when it overflows.
pub fn serve_add(body: &[u8]) -> (r: Response)
    ensures
        r.status == add_answer(json_i8_pair(lossy_text(body@))).0,
        r.body@ == Some(vstd::utf8::encode_utf8(add_answer(json_i8_pair(lossy_text(body@))).1)),
        r.content_type is None,
        forall|a: i8, b: i8|
            body@ == vstd::utf8::encode_utf8(#[trigger] pair_text(a as int, b as int)) ==> r.status
                == add_answer(Some((a, b))).0 && r.body@ == Some(
                vstd::utf8::encode_utf8(add_answer(Some((a, b))).1),
            ),
{
    let text = text_from_bytes(body);
    let decoded = decode_i8_pair(text.as_str());
    proof {
        assert forall|a: i8, b: i8|
            body@ == vstd::utf8::encode_utf8(#[trigger] pair_text(a as int, b as int)) implies decoded
            == Some((a, b)) by {
            vstd::utf8::encode_utf8_valid_utf8(pair_text(a as int, b as int));
            vstd::utf8::encode_utf8_decode_utf8(pair_text(a as int, b as int));
        }
    }
    respond_add(decoded)
}

} // verus!
