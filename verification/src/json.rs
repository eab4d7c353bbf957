//! The wire format of endpoint data: JSON text in UTF-8.
use vstd::prelude::*;
use crate::text::decimal;

verus! {

/// The text that `String::from_utf8_lossy` makes of `bytes`.
pub uninterp spec fn lossy_text(bytes: Seq<u8>) -> Seq<char>;

/// Decodes a request body as UTF-8, replacing invalid sequences.
///
/// Trusted: calls `String::from_utf8_lossy`. Its result depends on the bytes
/// alone, and its documentation says that valid UTF-8 is decoded as is.
#[verifier::external_body]
pub(crate) fn text_from_bytes(bytes: &[u8]) -> (res: String)
    ensures
        res@ == lossy_text(bytes@),
        vstd::utf8::valid_utf8(bytes@) ==> res@ == vstd::utf8::decode_utf8(bytes@),
{
    String::from_utf8_lossy(bytes).into_owned()
}

/// The JSON array text `[a,b]`.
pub open spec fn pair_text(a: int, b: int) -> Seq<char> {
    seq!['['] + decimal(a) + seq![','] + decimal(b) + seq![']']
}

/// The pair of `i32` that `serde_json` reads from `text`, if it reads one.
pub uninterp spec fn json_i32_pair(text: Seq<char>) -> Option<(i32, i32)>;

/// The pair of `i8` that `serde_json` reads from `text`, if it reads one.
pub uninterp spec fn json_i8_pair(text: Seq<char>) -> Option<(i8, i8)>;

/// Reads a pair of `i32` from JSON text.
///
/// Trusted: calls `serde_json::from_str::<(i32, i32)>`, whose result depends
/// on the text alone; a tuple is read from a JSON array, so `[a,b]` written
/// in plain decimal reads as `(a, b)`.
#[verifier::external_body]
pub(crate) fn decode_i32_pair(text: &str) -> (res: Option<(i32, i32)>)
    ensures
        res == json_i32_pair(text@),
        forall|a: i32, b: i32| text@ == #[trigger] pair_text(a as int, b as int) ==> res == Some((a, b)),
{
    match serde_json::from_str::<(i32, i32)>(text) {
        Ok(v) => Some(v),
        Err(_) => None,
    }
}

/// Reads a pair of `i8` from JSON text.
///
/// Trusted: calls `serde_json::from_str::<(i8, i8)>`, whose result depends on
/// the text alone; a tuple is read from a JSON array, so `[a,b]` written in
/// plain decimal reads as `(a, b)`.
#[verifier::external_body]
pub(crate) fn decode_i8_pair(text: &str) -> (res: Option<(i8, i8)>)
    ensures
        res == json_i8_pair(text@),
        forall|a: i8, b: i8| text@ == #[trigger] pair_text(a as int, b as int) ==> res == Some((a, b)),
{
    match serde_json::from_str::<(i8, i8)>(text) {
        Ok(v) => Some(v),
        Err(_) => None,
    }
}

/// The JSON text of an integer.
///
/// Trusted: calls `serde_json::to_string`, which writes an integer in plain
/// decimal (with a leading `-` when negative) and cannot fail on one.
#[verifier::external_body]
pub(crate) fn encode_i32(v: i32) -> (res: String)
    ensures
        res@ == decimal(v as int),
{
    match serde_json::to_string(&v) {
        Ok(s) => s,
        Err(_) => String::new(),
    }
}

} // verus!
