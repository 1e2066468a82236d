//! The error object the gateway hands back to its callers.

use vstd::prelude::*;
use crate::json::{JsonVal, spec_as_u64};

verus! {

/// Every error surfaced to a caller: an HTTP-style status, a human
/// message, a short kind tag, and the specific detail.
#[derive(Debug, PartialEq)]
pub struct ErrorBody {
    pub status_code: u16,
    pub message: String,
    pub error_message: String,
    pub custom_error_message: String,
}

/// Build an error object from its four fields.
pub fn erfn(status_code: u16, message: String, error_message: String, custom_error_message: String)
    -> (r: ErrorBody)
    ensures
        r.status_code == status_code,
        r.message == message,
        r.error_message == error_message,
        r.custom_error_message == custom_error_message,
{
    ErrorBody { status_code, message, error_message, custom_error_message }
}

/// What `decode_status_code` answers for a JSON value standing in a
/// `status_code` field: a missing or non-numeric value counts as 500, and
/// a number too large for an HTTP status is refused as 500.
pub open spec fn spec_decode_status_code(v: JsonVal) -> Result<u16, u16> {
    let u = match spec_as_u64(v) {
        Some(x) => x,
        None => 500,
    };
    if u > 0xffff {
        Err(500)
    } else {
        Ok(u as u16)
    }
}

/// Read an HTTP status code out of a JSON value.
pub fn decode_status_code(status_code: &JsonVal) -> (r: Result<u16, u16>)
    ensures
        r == spec_decode_status_code(*status_code),
{
    let u: u64 = match status_code.as_u64() {
        Some(x) => x,
        None => 500,
    };
    if u > 0xffff {
        Err(500)
    } else {
        Ok(u as u16)
    }
}

} // verus!
