//! Validation of decoded payloads against the fixed record schema.
//!
//! A payload is accepted only when `idx` is an exact integer, `name` a
//! non-empty string, and `timestamp` a date-time string with offset that
//! converts to microseconds without loss.  Validation is a hard gate: no
//! placeholder record is ever produced for a failing payload.

use vstd::prelude::*;
use crate::payload::{ParsedPayload, PayloadView};
use crate::timestamp::parse_timestamp_spec;
use crate::timestamp::parse_timestamp_micros;
use vstd::utf8::encode_utf8;

verus! {

#[derive(Clone, Copy, PartialEq, Eq, Structural, Debug)]
pub enum ValidationError {
    /// `idx` missing or not an exact integer.
    InvalidIdx,
    /// `name` missing, not a string, or empty.
    InvalidName,
    /// `timestamp` missing, not a string, or not convertible to
    /// microseconds without loss.
    InvalidTimestamp,
}

/// Why a raw message was rejected.
#[derive(Clone, Copy, PartialEq, Eq, Structural, Debug)]
pub enum RejectReason {
    /// The payload bytes did not decode.
    Undecodable,
    /// The decoded payload failed a required-field check.
    Invalid(ValidationError),
}

/// Spec-level image of a typed record.
pub ghost struct RecordView {
    pub idx: i64,
    pub name: Seq<char>,
    pub timestamp_micros: i64,
}

/// The canonical typed unit: one row of the record schema.
pub struct Record {
    pub idx: i64,
    pub name: String,
    pub timestamp_micros: i64,
}

impl View for Record {
    type V = RecordView;

    open spec fn view(&self) -> RecordView {
        RecordView { idx: self.idx, name: self.name@, timestamp_micros: self.timestamp_micros }
    }
}

impl Clone for Record {
    fn clone(&self) -> (r: Self)
        ensures
            r@ == self@,
    {
        Record {
            idx: self.idx,
            name: self.name.clone(),
            timestamp_micros: self.timestamp_micros,
        }
    }
}

/// A record only exists if it passed validation: its name is non-empty.
pub open spec fn record_wf(r: RecordView) -> bool {
    r.name.len() > 0
}

/// What validation returns for every payload: the coerced record exactly
/// when all three required fields check out, the first failing field's
/// error otherwise.
pub open spec fn spec_validate(p: PayloadView) -> Result<RecordView, ValidationError> {
    if p.idx is None {
        Err(ValidationError::InvalidIdx)
    } else if !(p.name matches Some(n) && n.len() > 0) {
        Err(ValidationError::InvalidName)
    } else if !(p.timestamp matches Some(t) && parse_timestamp_spec(encode_utf8(t)) is Some) {
        Err(ValidationError::InvalidTimestamp)
    } else {
        Ok(
            RecordView {
                idx: p.idx->Some_0,
                name: p.name->Some_0,
                timestamp_micros: parse_timestamp_spec(
                    encode_utf8(p.timestamp->Some_0),
                )->Some_0,
            },
        )
    }
}

/// Check a decoded payload against the record schema and coerce it into a
/// typed record, or report which required field failed.
pub fn validate(p: &ParsedPayload) -> (r: Result<Record, ValidationError>)
    ensures
        r matches Ok(rec) ==> spec_validate(p@) == Ok::<RecordView, ValidationError>(rec@)
            && record_wf(rec@),
        r matches Err(e) ==> spec_validate(p@) == Err::<RecordView, ValidationError>(e),
{
    let idx: i64 = match &p.idx {
        Some(i) => *i,
        None => {
            return Err(ValidationError::InvalidIdx);
        },
    };
    let name: &String = match &p.name {
        Some(n) => n,
        None => {
            return Err(ValidationError::InvalidName);
        },
    };
    if name.as_str().is_empty() {
        return Err(ValidationError::InvalidName);
    }
    let ts: &String = match &p.timestamp {
        Some(t) => t,
        None => {
            return Err(ValidationError::InvalidTimestamp);
        },
    };
    let micros: i64 = match parse_timestamp_micros(ts.as_str()) {
        Some(m) => m,
        None => {
            return Err(ValidationError::InvalidTimestamp);
        },
    };
    Ok(Record { idx, name: name.clone(), timestamp_micros: micros })
}

/// What classification returns for a raw message: its record when the
/// bytes decode and the payload validates, the reason it was rejected
/// otherwise.
pub open spec fn spec_classify(d: Option<PayloadView>) -> Result<RecordView, RejectReason> {
    match d {
        None => Err(RejectReason::Undecodable),
        Some(p) => match spec_validate(p) {
            Ok(r) => Ok(r),
            Err(e) => Err(RejectReason::Invalid(e)),
        },
    }
}

/// Classify an already-decoded message payload.
pub fn classify_payload(d: &Option<ParsedPayload>) -> (r: Result<Record, RejectReason>)
    ensures
        r matches Ok(rec) ==> spec_classify(view_of_opt(*d)) == Ok::<RecordView, RejectReason>(
            rec@,
        ) && record_wf(rec@),
        r matches Err(e) ==> spec_classify(view_of_opt(*d)) == Err::<RecordView, RejectReason>(e),
{
    match d {
        None => Err(RejectReason::Undecodable),
        Some(p) => match validate(p) {
            Ok(r) => Ok(r),
            Err(e) => Err(RejectReason::Invalid(e)),
        },
    }
}

/// View of an optional payload.
pub open spec fn view_of_opt(d: Option<ParsedPayload>) -> Option<PayloadView> {
    match d {
        Some(p) => Some(p@),
        None => None,
    }
}

} // verus!
