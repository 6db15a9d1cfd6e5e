use retry_after::{decode, encode, FromHeaderValueError, RetryAfter};

#[test]
fn decode_empty_is_insufficient() {
    assert_eq!(decode(b""), Err(FromHeaderValueError::InsufficientBytes));
}

#[test]
fn decode_plain_delay() {
    assert_eq!(decode(b"300"), Ok(RetryAfter::Delay(300)));
}

#[test]
fn decode_delay_with_leading_zeros() {
    assert_eq!(decode(b"0300"), Ok(RetryAfter::Delay(300)));
    assert_eq!(decode(b"0"), Ok(RetryAfter::Delay(0)));
}

#[test]
fn decode_delay_rejects_sign_and_spaces() {
    assert_eq!(decode(b"+300"), Err(FromHeaderValueError::ParseError));
    assert_eq!(decode(b" 300"), Err(FromHeaderValueError::ParseError));
    assert_eq!(decode(b"300 "), Err(FromHeaderValueError::ParseError));
    assert_eq!(decode(b"3.5"), Err(FromHeaderValueError::ParseError));
}

#[test]
fn decode_delay_at_u64_limit() {
    assert_eq!(
        decode(b"18446744073709551615"),
        Ok(RetryAfter::Delay(u64::MAX))
    );
    assert_eq!(
        decode(b"18446744073709551616"),
        Err(FromHeaderValueError::ParseError)
    );
}

#[test]
fn decode_rfc1123_date() {
    assert_eq!(
        decode(b"Sun, 06 Nov 1994 08:49:37 GMT"),
        Ok(RetryAfter::DateTime(784111777))
    );
}

#[test]
fn decode_rfc850_date() {
    assert_eq!(
        decode(b"Sunday, 06-Nov-94 08:49:37 GMT"),
        Ok(RetryAfter::DateTime(784111777))
    );
}

#[test]
fn decode_asctime_date() {
    assert_eq!(
        decode(b"Sun Nov  6 08:49:37 1994"),
        Ok(RetryAfter::DateTime(784111777))
    );
}

#[test]
fn decode_asctime_two_digit_day() {
    assert_eq!(
        decode(b"Sun Nov 06 08:49:37 1994"),
        Ok(RetryAfter::DateTime(784111777))
    );
}

#[test]
fn decode_unrecognized_text() {
    assert_eq!(
        decode(b"not a valid value"),
        Err(FromHeaderValueError::ParseError)
    );
}

#[test]
fn decode_invalid_utf8_is_distinguished() {
    assert_eq!(
        decode(&[0xff, 0xfe]),
        Err(FromHeaderValueError::InvalidByteSequence)
    );
    // A lone continuation byte and a truncated sequence are malformed too.
    assert_eq!(
        decode(&[0x80]),
        Err(FromHeaderValueError::InvalidByteSequence)
    );
    assert_eq!(
        decode(&[0xc3]),
        Err(FromHeaderValueError::InvalidByteSequence)
    );
    // An overlong encoding is rejected as bytes, not as text.
    assert_eq!(
        decode(&[0xc0, 0xaf]),
        Err(FromHeaderValueError::InvalidByteSequence)
    );
}

#[test]
fn decode_wellformed_non_ascii_is_parse_error() {
    // Valid UTF-8 that matches no grammar falls through to ParseError.
    assert_eq!(
        decode("caf\u{e9}".as_bytes()),
        Err(FromHeaderValueError::ParseError)
    );
}

#[test]
fn decode_rejects_wrong_weekday() {
    // 1994-11-06 was a Sunday, not a Monday.
    assert_eq!(
        decode(b"Mon, 06 Nov 1994 08:49:37 GMT"),
        Err(FromHeaderValueError::ParseError)
    );
}

#[test]
fn decode_rejects_invalid_calendar_date() {
    assert_eq!(
        decode(b"Thu, 30 Feb 2000 00:00:00 GMT"),
        Err(FromHeaderValueError::ParseError)
    );
    assert_eq!(
        decode(b"Thu, 00 Jan 2000 00:00:00 GMT"),
        Err(FromHeaderValueError::ParseError)
    );
    assert_eq!(
        decode(b"Sat, 01 Jan 2000 24:00:00 GMT"),
        Err(FromHeaderValueError::ParseError)
    );
}

#[test]
fn decode_accepts_leap_day() {
    // 2000-02-29 existed and was a Tuesday.
    assert_eq!(
        decode(b"Tue, 29 Feb 2000 12:00:00 GMT"),
        Ok(RetryAfter::DateTime(951825600))
    );
    // 1900 was not a leap year.
    assert_eq!(
        decode(b"Thu, 29 Feb 1900 00:00:00 GMT"),
        Err(FromHeaderValueError::ParseError)
    );
}

#[test]
fn decode_rfc850_year_pivot() {
    // Two-digit years 00-68 mean 2000-2068, 69-99 mean 1969-1999.
    assert_eq!(
        decode(b"Wednesday, 01-Jan-69 00:00:00 GMT"),
        Ok(RetryAfter::DateTime(-31536000))
    );
    assert_eq!(
        decode(b"Sunday, 01-Jan-68 00:00:00 GMT"),
        Ok(RetryAfter::DateTime(3092601600))
    );
}

#[test]
fn decode_strictness_rejects_trailing_text() {
    assert_eq!(
        decode(b"Sun, 06 Nov 1994 08:49:37 GMT "),
        Err(FromHeaderValueError::ParseError)
    );
    assert_eq!(
        decode(b"Sun, 06 Nov 1994 08:49:37 UTC"),
        Err(FromHeaderValueError::ParseError)
    );
    assert_eq!(
        decode(b"Sun, 6 Nov 1994 08:49:37 GMT"),
        Err(FromHeaderValueError::ParseError)
    );
}

#[test]
fn decode_digit_run_is_never_a_date() {
    // 29 digits have the length of an RFC 1123 date but overflow the
    // integer grammar; they fall through to ParseError, never to a date.
    assert_eq!(
        decode(b"12345678901234567890123456789"),
        Err(FromHeaderValueError::ParseError)
    );
}

#[test]
fn encode_delay() {
    assert_eq!(encode(RetryAfter::Delay(300)), b"300".to_vec());
    assert_eq!(encode(RetryAfter::Delay(0)), b"0".to_vec());
    assert_eq!(
        encode(RetryAfter::Delay(u64::MAX)),
        b"18446744073709551615".to_vec()
    );
}

#[test]
fn encode_date_uses_rfc1123_only() {
    // Whatever grammar produced the instant, output is RFC 1123.
    let v = decode(b"Sunday, 06-Nov-94 08:49:37 GMT").unwrap();
    assert_eq!(encode(v), b"Sun, 06 Nov 1994 08:49:37 GMT".to_vec());
    let v = decode(b"Sun Nov  6 08:49:37 1994").unwrap();
    assert_eq!(encode(v), b"Sun, 06 Nov 1994 08:49:37 GMT".to_vec());
}

#[test]
fn encode_date_before_epoch() {
    assert_eq!(
        encode(RetryAfter::DateTime(-1)),
        b"Wed, 31 Dec 1969 23:59:59 GMT".to_vec()
    );
}

#[test]
fn encode_date_range_edges() {
    assert_eq!(
        encode(RetryAfter::DateTime(-62167219200)),
        b"Sat, 01 Jan 0000 00:00:00 GMT".to_vec()
    );
    assert_eq!(
        encode(RetryAfter::DateTime(253402300799)),
        b"Fri, 31 Dec 9999 23:59:59 GMT".to_vec()
    );
}

#[test]
fn round_trip_delay() {
    for secs in [0u64, 1, 59, 300, 1234, 86400, u64::MAX] {
        let v = RetryAfter::Delay(secs);
        assert_eq!(decode(&encode(v)), Ok(v));
    }
}

#[test]
fn round_trip_date() {
    for ts in [
        784111777i64,
        0,
        -1,
        1,
        951825600,
        -62167219200,
        253402300799,
        1700000000,
    ] {
        let v = RetryAfter::DateTime(ts);
        assert_eq!(decode(&encode(v)), Ok(v));
    }
}

#[test]
fn error_messages() {
    assert_eq!(
        FromHeaderValueError::InsufficientBytes.message(),
        "not enough data"
    );
    assert_eq!(
        FromHeaderValueError::InvalidByteSequence.message(),
        "byte sequence in header was invalid"
    );
    assert_eq!(
        FromHeaderValueError::ParseError.message(),
        "invalid format for time specifier"
    );
}
