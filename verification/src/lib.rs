//! Parsing and serialization of the HTTP `Retry-After` header value
//! (RFC 7231, section 7.1.3).
//!
//! The header value is either `delay-seconds` (a plain unsigned decimal
//! number of seconds) or an `HTTP-date` in one of the three historical
//! formats (RFC 1123, RFC 850, asctime).  Decoding accepts all of them, in
//! that order of priority; encoding always emits `delay-seconds` or the
//! RFC 1123 date format, as the RFC requires of senders.

use vstd::prelude::*;

pub mod calendar;
pub mod codec;
pub mod decimal;
pub mod header;
pub mod http_date;
pub mod utf8;
pub mod value;

verus! {

pub use crate::value::{RetryAfter, FromHeaderValueError, HEADER_NAME};
pub use crate::codec::{decode, encode, decode_spec, encode_spec};

} // verus!
