use http::header::HeaderValue;
use retry_after::{FromHeaderValueError, RetryAfter, HEADER_NAME};

#[test]
fn parse_delay() {
    let delay = HeaderValue::from_bytes(b"1234").unwrap();
    let retry_after = RetryAfter::try_from(delay).unwrap();

    assert_eq!(RetryAfter::Delay(1234), retry_after);
}

#[test]
fn header_parse_rfc1123() {
    let header_value = HeaderValue::from_bytes(b"Sun, 06 Nov 1994 08:49:37 GMT").unwrap();
    let retry_after = RetryAfter::try_from(header_value).expect("parse_header ok");
    assert_eq!(RetryAfter::DateTime(784111777), retry_after);
}

#[test]
fn header_parse_rfc850() {
    let header_value = HeaderValue::from_bytes(b"Sunday, 06-Nov-94 08:49:37 GMT").unwrap();
    let retry_after = RetryAfter::try_from(header_value).expect("parse_header ok");
    assert_eq!(RetryAfter::DateTime(784111777), retry_after);
}

#[test]
fn header_parse_asctime() {
    let header_value = HeaderValue::from_bytes(b"Sun Nov  6 08:49:37 1994").unwrap();
    let retry_after = RetryAfter::try_from(header_value).expect("parse_header ok");
    assert_eq!(RetryAfter::DateTime(784111777), retry_after);
}

#[test]
fn header_parse_empty_value() {
    let header_value = HeaderValue::from_bytes(b"").unwrap();
    assert_eq!(
        RetryAfter::try_from(header_value),
        Err(FromHeaderValueError::InsufficientBytes)
    );
}

#[test]
fn header_write_delay() {
    let hv: HeaderValue = RetryAfter::Delay(300).into();
    assert_eq!(hv.as_bytes(), b"300");
}

#[test]
fn header_write_date() {
    let hv: HeaderValue = RetryAfter::DateTime(784111777).into();
    assert_eq!(hv.as_bytes(), b"Sun, 06 Nov 1994 08:49:37 GMT");
}

#[test]
fn header_round_trip_through_header_value() {
    let v = RetryAfter::DateTime(1700000000);
    let hv: HeaderValue = v.into();
    assert_eq!(RetryAfter::try_from(hv), Ok(v));
}

#[test]
fn header_name_is_retry_after() {
    assert_eq!(HEADER_NAME, "Retry-After");
}
