//! Loosely-typed payloads decoded from raw message bytes.
//!
//! A payload is the flat key/value object carried by a message; only the
//! three fields of the record schema are read from it, extra fields are
//! ignored.  Decoding is done by an outside JSON parser behind a trusted
//! wrapper; everything downstream of it is verified.

use vstd::prelude::*;

verus! {

/// Spec-level image of a decoded payload: the three fields the record
/// schema reads, each absent when missing or not of the expected kind.
pub ghost struct PayloadView {
    pub idx: Option<i64>,
    pub name: Option<Seq<char>>,
    pub timestamp: Option<Seq<char>>,
}

/// A decoded payload.  `idx` is present only when the field holds an exact
/// integer; `name` and `timestamp` only when the field holds a string.
pub struct ParsedPayload {
    pub idx: Option<i64>,
    pub name: Option<String>,
    pub timestamp: Option<String>,
}

impl View for ParsedPayload {
    type V = PayloadView;

    open spec fn view(&self) -> PayloadView {
        PayloadView {
            idx: self.idx,
            name: match self.name {
                Some(s) => Some(s@),
                None => None,
            },
            timestamp: match self.timestamp {
                Some(s) => Some(s@),
                None => None,
            },
        }
    }
}

impl Clone for ParsedPayload {
    fn clone(&self) -> (r: Self)
        ensures
            r@ == self@,
    {
        ParsedPayload {
            idx: self.idx,
            name: match &self.name {
                Some(s) => Some(s.clone()),
                None => None,
            },
            timestamp: match &self.timestamp {
                Some(s) => Some(s.clone()),
                None => None,
            },
        }
    }
}

/// What decoding a payload from bytes yields; a function of the bytes
/// alone.
pub uninterp spec fn decoded_payload_of(bytes: Seq<u8>) -> Option<PayloadView>;

/// Relies on serde_json::from_slice to decode a JSON value from bytes, and
/// on serde_json::Value::get, Value::as_i64 and Value::as_str to read its
/// fields; the result depends on the payload bytes alone.
#[verifier::external_body]
pub(crate) fn decode_payload_bytes(bytes: &[u8]) -> (r: Option<ParsedPayload>)
    ensures
        r matches Some(p) ==> decoded_payload_of(bytes@) == Some(p@),
        r is None ==> decoded_payload_of(bytes@) is None,
{
    let v: serde_json::Value = match serde_json::from_slice(bytes) {
        Ok(v) => v,
        Err(_) => {
            return None;
        },
    };
    let idx = v.get("idx").and_then(|f| f.as_i64());
    let name = v.get("name").and_then(|f| f.as_str()).map(|s| s.to_string());
    let timestamp = v.get("timestamp").and_then(|f| f.as_str()).map(|s| s.to_string());
    Some(ParsedPayload { idx, name, timestamp })
}

} // verus!
