//! The `Retry-After` value and its decode error.

use vstd::prelude::*;
use crate::calendar::ts_in_range;

verus! {

/// The field name of the header this library reads and writes.
pub const HEADER_NAME: &'static str = "Retry-After";

/// A decoded `Retry-After` header value (RFC 7231, section 7.1.3).
#[derive(Debug, Clone, Copy, PartialEq, Eq, Structural)]
pub enum RetryAfter {
    /// Retry after this many whole seconds have elapsed.
    ///
    /// The wire grammar is an unsigned integer, so a delay is never
    /// negative.
    Delay(u64),
    /// Retry no earlier than this instant, counted in whole seconds since
    /// the Unix epoch, in UTC.  The formats that produce it carry no
    /// sub-second precision.
    DateTime(i64),
}

impl RetryAfter {
    /// A value can be written on the wire when its instant, if any, falls
    /// in the years 0 through 9999, the range of a four-digit year field.
    pub open spec fn wf(self) -> bool {
        match self {
            RetryAfter::Delay(_) => true,
            RetryAfter::DateTime(ts) => ts_in_range(ts as int),
        }
    }
}

/// Why a header value failed to decode.
#[derive(Debug, Clone, Copy, PartialEq, Eq, Structural)]
pub enum FromHeaderValueError {
    /// The input was empty.
    InsufficientBytes,
    /// The input was not valid UTF-8.
    InvalidByteSequence,
    /// Well-formed text that matches neither `delay-seconds` nor any of the
    /// three `HTTP-date` formats.
    ParseError,
}

impl FromHeaderValueError {
    pub open spec fn message_spec(self) -> Seq<char> {
        match self {
            FromHeaderValueError::InsufficientBytes => "not enough data"@,
            FromHeaderValueError::InvalidByteSequence => "byte sequence in header was invalid"@,
            FromHeaderValueError::ParseError => "invalid format for time specifier"@,
        }
    }

    /// A short description of the error.
    pub fn message(&self) -> (r: &'static str)
        ensures r@ == self.message_spec(),
    {
        match self {
            FromHeaderValueError::InsufficientBytes => "not enough data",
            FromHeaderValueError::InvalidByteSequence => "byte sequence in header was invalid",
            FromHeaderValueError::ParseError => "invalid format for time specifier",
        }
    }
}

} // verus!
