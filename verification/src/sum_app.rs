//! An application with one idempotent endpoint, `sum`, which adds two `i32`,
//! and a page for every other `GET`.
use vstd::prelude::*;
use crate::json::{decode_i32_pair, encode_i32, json_i32_pair, lossy_text, pair_text, text_from_bytes};
use crate::naming::{route_path, snake_case};
use crate::routing::{failed, failure_text, handler_response, EndpointInfo, Response};
use crate::text::decimal;

verus! {

/// Whether `v` fits in an `i32`.
pub open spec fn fits_i32(v: int) -> bool {
    i32::MIN <= v <= i32::MAX
}

/// The sum of the two numbers (which must not overflow).
pub fn add(data: (i32, i32)) -> (res: Result<i32, anyhow::Error>)
    requires
        fits_i32(data.0 + data.1),
    ensures
        res matches Ok(v) && v == data.0 + data.1,
{
    Ok(data.0 + data.1)
}

/// The application's page.
pub open spec fn page_text() -> Seq<char> {
    "<body>This is a valid* HTML file</body>"@
}

/// The page served for every `GET` that names no static file.
pub fn generate_html() -> (res: String)
    ensures
        res@ == page_text(),
{
    String::from_str("<body>This is a valid* HTML file</body>")
}

/// The endpoint generated for `add`.
pub struct EndpointAdd;

impl EndpointAdd {
    /// `add` is declared idempotent, so it answers `PUT`.
    pub fn is_idempotent() -> (b: bool)
        ensures
            b,
    {
        true
    }
}

/// The application's router.
pub enum Router {
    Sum(EndpointAdd),
}

impl Router {
    /// The endpoints of the router's variants, in order.
    pub fn endpoints() -> (res: Vec<EndpointInfo>)
        ensures
            res@.len() == 1,
            res@[0].path@ == snake_case("Sum"@),
            res@[0].is_idempotent,
            !res@[0].takes_unit,
    {
        let mut v: Vec<EndpointInfo> = Vec::new();
        v.push(
            EndpointInfo {
                path: route_path("Sum"),
                is_idempotent: EndpointAdd::is_idempotent(),
                takes_unit: false,
            },
        );
        v
    }
}

/// The status and text of the answer to a request whose body read as
/// `decoded`: 200 with the sum's JSON text, or 500 when the body did not read
/// as a pair or the sum overflows (the addition fails).
pub open spec fn sum_answer(decoded: Option<(i32, i32)>) -> (u16, Seq<char>) {
    match decoded {
        Some((a, b)) => if fits_i32(a + b) {
            (200, decimal(a + b))
        } else {
            (500, failure_text())
        },
        None => (500, failure_text()),
    }
}

/// A pair whose sum fits in an `i32` is answered with 200 and the sum in
/// decimal, whatever the signs of the operands; an overflowing pair, or a
/// body that is not a pair, gets 500.
pub proof fn law_sum_answers_sum(a: i32, b: i32)
    ensures
        i32::MIN <= a + b <= i32::MAX ==> sum_answer(Some((a, b))) == (200u16, decimal(a + b)),
        !(i32::MIN <= a + b <= i32::MAX) ==> sum_answer(Some((a, b))).0 == 500,
        sum_answer(None).0 == 500,
{
}

/// Answers a request to `sum` whose body read as `decoded`.
pub fn respond_sum(decoded: Option<(i32, i32)>) -> (r: Response)
    ensures
        r.status == sum_answer(decoded).0,
        r.body@ == Some(vstd::utf8::encode_utf8(sum_answer(decoded).1)),
        r.content_type is None,
        decoded matches Some((a, b)) ==> (i32::MIN <= a + b <= i32::MAX <==> r.status == 200),
        decoded matches Some((a, b)) ==> (i32::MIN <= a + b <= i32::MAX ==> r.body@ == Some(
            vstd::utf8::encode_utf8(decimal(a + b)),
        )),
        decoded matches Some((a, b)) ==> (!(i32::MIN <= a + b <= i32::MAX) ==> r.status == 500),
        decoded is None ==> r.status == 500,
{
    match decoded {
        Some(data) => {
            if data.0.checked_add(data.1).is_none() {
                return failed();
            }
            match self::add(data) {
                Ok(v) => handler_response(Ok(encode_i32(v))),
                Err(_) => failed(),
            }
        },
        None => failed(),
    }
}

/// Answers a request to `sum` with body `body`. A body `[a,b]` whose sum fits
/// is answered with 200 and the sum.
pub fn serve_sum(body: &[u8]) -> (r: Response)
    ensures
        r.status == sum_answer(json_i32_pair(lossy_text(body@))).0,
        r.body@ == Some(vstd::utf8::encode_utf8(sum_answer(json_i32_pair(lossy_text(body@))).1)),
        r.content_type is None,
        forall|a: i32, b: i32|
            body@ == vstd::utf8::encode_utf8(#[trigger] pair_text(a as int, b as int)) ==> r.status
                == sum_answer(Some((a, b))).0 && r.body@ == Some(
                vstd::utf8::encode_utf8(sum_answer(Some((a, b))).1),
            ),
{
    let text = text_from_bytes(body);
    let decoded = decode_i32_pair(text.as_str());
    proof {
        assert forall|a: i32, b: i32|
            body@ == vstd::utf8::encode_utf8(#[trigger] pair_text(a as int, b as int)) implies decoded
            == Some((a, b)) by {
            vstd::utf8::encode_utf8_valid_utf8(pair_text(a as int, b as int));
            vstd::utf8::encode_utf8_decode_utf8(pair_text(a as int, b as int));
        }
    }
    respond_sum(decoded)
}

} // verus!
