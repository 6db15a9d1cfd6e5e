//! The header-container edge: reading a `Retry-After` value out of an
//! `http::HeaderValue` and writing one into it.
//!
//! The container itself belongs to the `http` crate; this module declares
//! it and the two accessors the codec needs, and proves that every byte
//! the encoder produces is acceptable to the container.

use vstd::prelude::*;
use crate::codec::{decode, encode, decode_spec, encode_spec};
use crate::decimal::lemma_dec_digits;
use crate::http_date::lemma_rfc1123_render_parses;
use crate::value::{RetryAfter, FromHeaderValueError};

verus! {

#[verifier::external_type_specification]
#[verifier::external_body]
pub struct ExHeaderValue(http::header::HeaderValue);

#[verifier::external_type_specification]
#[verifier::external_body]
pub struct ExInvalidHeaderValue(http::header::InvalidHeaderValue);

/// The bytes that an `http::HeaderValue` holds.
pub uninterp spec fn header_value_bytes(v: http::header::HeaderValue) -> Seq<u8>;

/// A byte that `http` accepts in a header value: its `is_valid` admits
/// 32..=255 except 127, and tab.
pub open spec fn is_header_value_byte(b: u8) -> bool {
    b >= 32 && b != 127 || b == 9
}

/// Relies on http's `HeaderValue::as_bytes`: it yields the value's bytes.
pub assume_specification[ http::header::HeaderValue::as_bytes ](
    v: &http::header::HeaderValue,
) -> (r: &[u8])
    ensures r@ == header_value_bytes(*v),
;

/// Relies on http's `HeaderValue::from_bytes`: it accepts exactly the byte
/// sequences whose every byte its `is_valid` admits, and stores the bytes
/// unchanged.
pub assume_specification[ http::header::HeaderValue::from_bytes ](
    src: &[u8],
) -> (r: Result<http::header::HeaderValue, http::header::InvalidHeaderValue>)
    ensures
        r is Ok <==> (forall|i: int| 0 <= i < src@.len() ==> is_header_value_byte(#[trigger] src@[i])),
        r matches Ok(v) ==> header_value_bytes(v) == src@,
;

/// Every byte the encoder produces is acceptable in a header value:
/// decimal digits, or the printable ASCII of the RFC 1123 rendering.
proof fn lemma_encoded_header_valid(v: RetryAfter)
    requires v.wf(),
    ensures
        forall|i: int| 0 <= i < encode_spec(v).len()
            ==> is_header_value_byte(#[trigger] encode_spec(v)[i]),
{
    match v {
        RetryAfter::Delay(secs) => {
            lemma_dec_digits(secs as nat);
        }
        RetryAfter::DateTime(ts) => {
            lemma_rfc1123_render_parses(ts as int);
        }
    }
}

impl RetryAfter {
    /// Read a `RetryAfter` out of the value of a `Retry-After` header.
    pub fn try_from(header_value: http::header::HeaderValue) -> (r: Result<RetryAfter, FromHeaderValueError>)
        ensures r == decode_spec(header_value_bytes(header_value)),
    {
        decode(header_value.as_bytes())
    }

    /// Write this value into an `http::HeaderValue`.  The encoder produces
    /// printable ASCII only, so the container accepts it.
    pub fn into(self) -> (r: http::header::HeaderValue)
        requires self.wf(),
        ensures header_value_bytes(r) == encode_spec(self),
    {
        let bytes = encode(self);
        proof { lemma_encoded_header_valid(self); }
        match http::header::HeaderValue::from_bytes(bytes.as_slice()) {
            Ok(v) => v,
            Err(_) => unreached(),
        }
    }
}

} // verus!
