//! The codec between wire bytes and `RetryAfter` values.
//!
//! Decoding tries, in order: the `delay-seconds` integer grammar, then the
//! three `HTTP-date` formats with RFC 1123 first.  Encoding is total over
//! well-formed values and writes `delay-seconds` or the RFC 1123 format
//! only.

use vstd::prelude::*;
use crate::calendar::ts_in_range;
use crate::decimal::{
    all_digits, dec_value, dec_digits, parse_delay_seconds, push_decimal, lemma_dec_digits,
    lemma_dec_value_nonneg,
};
use crate::utf8::{is_valid_utf8, validate_utf8, lemma_ascii_is_valid_utf8};
use crate::http_date::{
    rfc1123_matches, rfc1123_instant, rfc850_matches, rfc850_instant, asctime_matches,
    asctime_instant, rfc1123_render, parse_rfc1123, parse_rfc850, parse_asctime,
    format_rfc1123, lemma_rfc1123_render_parses, lemma_rfc1123_text, lemma_rfc850_text,
    lemma_asctime_text,
};
use crate::value::{RetryAfter, FromHeaderValueError};

verus! {

/// What decoding returns, byte sequence for byte sequence: the empty input
/// is rejected as insufficient, malformed UTF-8 as an invalid byte
/// sequence; then a run of digits that fits a `u64` is a delay, then the
/// date formats are tried in their fixed order, and anything else is an
/// unrecognized format.
pub open spec fn decode_spec(s: Seq<u8>) -> Result<RetryAfter, FromHeaderValueError> {
    if s.len() == 0 {
        Err(FromHeaderValueError::InsufficientBytes)
    } else if !is_valid_utf8(s) {
        Err(FromHeaderValueError::InvalidByteSequence)
    } else if all_digits(s) && dec_value(s) <= u64::MAX {
        Ok(RetryAfter::Delay(dec_value(s) as u64))
    } else if rfc1123_matches(s) {
        Ok(RetryAfter::DateTime(rfc1123_instant(s) as i64))
    } else if rfc850_matches(s) {
        Ok(RetryAfter::DateTime(rfc850_instant(s) as i64))
    } else if asctime_matches(s) {
        Ok(RetryAfter::DateTime(asctime_instant(s) as i64))
    } else {
        Err(FromHeaderValueError::ParseError)
    }
}

/// What encoding writes: the decimal digits of a delay, or the RFC 1123
/// rendering of an instant.
pub open spec fn encode_spec(v: RetryAfter) -> Seq<u8> {
    match v {
        RetryAfter::Delay(secs) => dec_digits(secs as nat),
        RetryAfter::DateTime(ts) => rfc1123_render(ts as int),
    }
}

/// Decode the value bytes of a `Retry-After` header.
pub fn decode(bytes: &[u8]) -> (r: Result<RetryAfter, FromHeaderValueError>)
    ensures r == decode_spec(bytes@),
{
    if bytes.len() == 0 {
        return Err(FromHeaderValueError::InsufficientBytes);
    }
    if !validate_utf8(bytes) {
        return Err(FromHeaderValueError::InvalidByteSequence);
    }
    if let Some(secs) = parse_delay_seconds(bytes) {
        proof { lemma_dec_value_nonneg(bytes@); }
        return Ok(RetryAfter::Delay(secs));
    }
    if let Some(ts) = parse_rfc1123(bytes) {
        return Ok(RetryAfter::DateTime(ts));
    }
    if let Some(ts) = parse_rfc850(bytes) {
        return Ok(RetryAfter::DateTime(ts));
    }
    if let Some(ts) = parse_asctime(bytes) {
        return Ok(RetryAfter::DateTime(ts));
    }
    Err(FromHeaderValueError::ParseError)
}

/// Encode a `Retry-After` value as wire bytes.  Encoding is total over
/// well-formed values; it never fails.
pub fn encode(v: RetryAfter) -> (r: Vec<u8>)
    requires v.wf(),
    ensures r@ == encode_spec(v),
{
    match v {
        RetryAfter::Delay(secs) => {
            let mut out: Vec<u8> = Vec::new();
            push_decimal(&mut out, secs);
            proof { assert(out@ =~= dec_digits(secs as nat)); }
            out
        }
        RetryAfter::DateTime(ts) => format_rfc1123(ts),
    }
}

/// Round trip for delays: decoding the encoding of `Delay(secs)` gives
/// `Delay(secs)` back, for every number of seconds.
pub proof fn lemma_round_trip_delay(secs: u64)
    ensures decode_spec(encode_spec(RetryAfter::Delay(secs))) == Ok::<RetryAfter, FromHeaderValueError>(RetryAfter::Delay(secs)),
{
    let s = dec_digits(secs as nat);
    lemma_dec_digits(secs as nat);
    assert(forall|i: int| 0 <= i < s.len() ==> #[trigger] s[i] < 128);
    lemma_ascii_is_valid_utf8(s);
}

/// Round trip for instants: decoding the encoding of `DateTime(ts)` gives
/// `DateTime(ts)` back for every in-range `ts`, and the encoding matches
/// the RFC 1123 grammar — the only grammar encoding ever produces.
pub proof fn lemma_round_trip_date(ts: i64)
    requires ts_in_range(ts as int),
    ensures
        rfc1123_matches(encode_spec(RetryAfter::DateTime(ts))),
        decode_spec(encode_spec(RetryAfter::DateTime(ts))) == Ok::<RetryAfter, FromHeaderValueError>(RetryAfter::DateTime(ts)),
{
    let s = rfc1123_render(ts as int);
    lemma_rfc1123_render_parses(ts as int);
    lemma_rfc1123_text(s);
    lemma_ascii_is_valid_utf8(s);
}

/// Round trip: decoding the encoding of any well-formed value gives the
/// value back.
pub proof fn lemma_round_trip(v: RetryAfter)
    requires v.wf(),
    ensures decode_spec(encode_spec(v)) == Ok::<RetryAfter, FromHeaderValueError>(v),
{
    match v {
        RetryAfter::Delay(secs) => lemma_round_trip_delay(secs),
        RetryAfter::DateTime(ts) => lemma_round_trip_date(ts),
    }
}

/// Format priority: a digit run is always a delay, and a text that matches
/// an earlier date format is never read as a later one — the fixed order
/// is RFC 1123, then RFC 850, then asctime.
pub proof fn lemma_format_priority(s: Seq<u8>)
    ensures
        s.len() > 0 && all_digits(s) && dec_value(s) <= u64::MAX
            ==> decode_spec(s) == Ok::<RetryAfter, FromHeaderValueError>(RetryAfter::Delay(dec_value(s) as u64)),
        rfc1123_matches(s)
            ==> decode_spec(s) == Ok::<RetryAfter, FromHeaderValueError>(RetryAfter::DateTime(rfc1123_instant(s) as i64)),
        !rfc1123_matches(s) && rfc850_matches(s)
            ==> decode_spec(s) == Ok::<RetryAfter, FromHeaderValueError>(RetryAfter::DateTime(rfc850_instant(s) as i64)),
        !rfc1123_matches(s) && !rfc850_matches(s) && asctime_matches(s)
            ==> decode_spec(s) == Ok::<RetryAfter, FromHeaderValueError>(RetryAfter::DateTime(asctime_instant(s) as i64)),
{
    if s.len() > 0 && all_digits(s) && dec_value(s) <= u64::MAX {
        assert(forall|i: int| 0 <= i < s.len() ==> #[trigger] s[i] < 128);
        lemma_ascii_is_valid_utf8(s);
    }
    if rfc1123_matches(s) {
        lemma_rfc1123_text(s);
        lemma_ascii_is_valid_utf8(s);
    }
    if rfc850_matches(s) {
        lemma_rfc850_text(s);
        lemma_ascii_is_valid_utf8(s);
    }
    if asctime_matches(s) {
        lemma_asctime_text(s);
        lemma_ascii_is_valid_utf8(s);
    }
}

} // verus!
