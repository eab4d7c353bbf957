//! Response bodies: an optional byte payload.
use vstd::prelude::*;

verus! {

/// A response body: a payload, or none at all.
pub struct Body {
    data: Option<Vec<u8>>,
}

impl View for Body {
    type V = Option<Seq<u8>>;

    closed spec fn view(&self) -> Option<Seq<u8>> {
        match self.data {
            Some(v) => Some(v@),
            None => None,
        }
    }
}

/// The bytes a body carries: its payload, or nothing.
pub open spec fn payload(b: Option<Seq<u8>>) -> Seq<u8> {
    match b {
        Some(s) => s,
        None => Seq::empty(),
    }
}

impl Default for Body {
    fn default() -> (b: Body)
        ensures
            b@ is None,
    {
        Body { data: None }
    }
}

impl Body {
    /// A body carrying the UTF-8 encoding of `value`.
    pub fn from_string(value: String) -> (b: Body)
        ensures
            b@ == Some(vstd::utf8::encode_utf8(value@)),
    {
        Body { data: Some(value.as_str().as_bytes_vec()) }
    }

    /// A body carrying a copy of `value`.
    pub fn from_slice(value: &[u8]) -> (b: Body)
        ensures
            b@ == Some(value@),
    {
        Body { data: Some(vstd::slice::slice_to_vec(value)) }
    }

    /// The bytes to send: the payload, or nothing when there is none.
    pub fn full(self) -> (bytes: Vec<u8>)
        ensures
            bytes@ == payload(self@),
    {
        match self.data {
            Some(v) => v,
            None => Vec::new(),
        }
    }
}

} // verus!
