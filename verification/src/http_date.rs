//! The three `HTTP-date` text formats accepted for `Retry-After`
//! (RFC 7231, section 7.1.1.1): RFC 1123 (the one senders must produce),
//! RFC 850, and ANSI C `asctime`.  Matching is strict: the whole input must
//! fit the format, the named weekday must agree with the date, and the date
//! and time fields must be valid.
//!
//! Two-digit RFC 850 years follow the common pivot: 00-68 mean 2000-2068,
//! 69-99 mean 1969-1999.

use vstd::prelude::*;
use crate::calendar::{
    valid_date, valid_time, day_number, weekday_of_day, unix_seconds_of, days_in_month,
    ts_in_range, day_of_ts, year_of_ts, month_of_ts, dom_of_ts, hour_of_ts, minute_of_ts,
    second_of_ts, month_length, day_number_of, unix_of_civil, civil_of_unix, lemma_ts_fields,
};
use crate::decimal::is_digit;

verus! {

pub open spec fn d2(s: Seq<u8>, i: int) -> int {
    (s[i] - 48) * 10 + (s[i + 1] - 48)
}

pub open spec fn digits2_at(s: Seq<u8>, i: int) -> bool {
    is_digit(s[i]) && is_digit(s[i + 1])
}

pub open spec fn d4(s: Seq<u8>, i: int) -> int {
    d2(s, i) * 100 + d2(s, i + 2)
}

pub open spec fn digits4_at(s: Seq<u8>, i: int) -> bool {
    digits2_at(s, i) && digits2_at(s, i + 2)
}

/// `HH:MM:SS` at position `i`.
pub open spec fn time_at(s: Seq<u8>, i: int) -> bool {
    digits2_at(s, i) && s[i + 2] == 58 && digits2_at(s, i + 3) && s[i + 5] == 58
        && digits2_at(s, i + 6)
}

/// Three-letter weekday name at position `i`, as the index used by
/// `weekday_of_day` (0 = Sat ... 6 = Fri), or -1.
pub open spec fn wk3_at(s: Seq<u8>, i: int) -> int {
    if s[i] == 83 && s[i + 1] == 97 && s[i + 2] == 116 { 0 }          // Sat
    else if s[i] == 83 && s[i + 1] == 117 && s[i + 2] == 110 { 1 }    // Sun
    else if s[i] == 77 && s[i + 1] == 111 && s[i + 2] == 110 { 2 }    // Mon
    else if s[i] == 84 && s[i + 1] == 117 && s[i + 2] == 101 { 3 }    // Tue
    else if s[i] == 87 && s[i + 1] == 101 && s[i + 2] == 100 { 4 }    // Wed
    else if s[i] == 84 && s[i + 1] == 104 && s[i + 2] == 117 { 5 }    // Thu
    else if s[i] == 70 && s[i + 1] == 114 && s[i + 2] == 105 { 6 }    // Fri
    else { -1 }
}

/// Three-letter month name at position `i`, as 1..12, or 0.
pub open spec fn month_at(s: Seq<u8>, i: int) -> int {
    if s[i] == 74 && s[i + 1] == 97 && s[i + 2] == 110 { 1 }          // Jan
    else if s[i] == 70 && s[i + 1] == 101 && s[i + 2] == 98 { 2 }     // Feb
    else if s[i] == 77 && s[i + 1] == 97 && s[i + 2] == 114 { 3 }     // Mar
    else if s[i] == 65 && s[i + 1] == 112 && s[i + 2] == 114 { 4 }    // Apr
    else if s[i] == 77 && s[i + 1] == 97 && s[i + 2] == 121 { 5 }     // May
    else if s[i] == 74 && s[i + 1] == 117 && s[i + 2] == 110 { 6 }    // Jun
    else if s[i] == 74 && s[i + 1] == 117 && s[i + 2] == 108 { 7 }    // Jul
    else if s[i] == 65 && s[i + 1] == 117 && s[i + 2] == 103 { 8 }    // Aug
    else if s[i] == 83 && s[i + 1] == 101 && s[i + 2] == 112 { 9 }    // Sep
    else if s[i] == 79 && s[i + 1] == 99 && s[i + 2] == 116 { 10 }    // Oct
    else if s[i] == 78 && s[i + 1] == 111 && s[i + 2] == 118 { 11 }   // Nov
    else if s[i] == 68 && s[i + 1] == 101 && s[i + 2] == 99 { 12 }    // Dec
    else { 0 }
}

/// `Sun, 06 Nov 1994 08:49:37 GMT`
pub open spec fn rfc1123_matches(s: Seq<u8>) -> bool {
    s.len() == 29
    && wk3_at(s, 0) >= 0
    && s[3] == 44 && s[4] == 32
    && digits2_at(s, 5)
    && s[7] == 32
    && month_at(s, 8) >= 1
    && s[11] == 32
    && digits4_at(s, 12)
    && s[16] == 32
    && time_at(s, 17)
    && s[25] == 32 && s[26] == 71 && s[27] == 77 && s[28] == 84
    && valid_date(d4(s, 12), month_at(s, 8), d2(s, 5))
    && valid_time(d2(s, 17), d2(s, 20), d2(s, 23))
    && wk3_at(s, 0) == weekday_of_day(day_number(d4(s, 12), month_at(s, 8), d2(s, 5)))
}

pub open spec fn rfc1123_instant(s: Seq<u8>) -> int {
    unix_seconds_of(d4(s, 12), month_at(s, 8), d2(s, 5), d2(s, 17), d2(s, 20), d2(s, 23))
}

/// Full weekday name at the head of `s`, as the index used by
/// `weekday_of_day`, or -1.
pub open spec fn wkfull_day(s: Seq<u8>) -> int {
    if s.len() >= 8 && s[0] == 83 && s[1] == 97 && s[2] == 116 && s[3] == 117
        && s[4] == 114 && s[5] == 100 && s[6] == 97 && s[7] == 121 { 0 }      // Saturday
    else if s.len() >= 6 && s[0] == 83 && s[1] == 117 && s[2] == 110 && s[3] == 100
        && s[4] == 97 && s[5] == 121 { 1 }                                    // Sunday
    else if s.len() >= 6 && s[0] == 77 && s[1] == 111 && s[2] == 110 && s[3] == 100
        && s[4] == 97 && s[5] == 121 { 2 }                                    // Monday
    else if s.len() >= 7 && s[0] == 84 && s[1] == 117 && s[2] == 101 && s[3] == 115
        && s[4] == 100 && s[5] == 97 && s[6] == 121 { 3 }                     // Tuesday
    else if s.len() >= 9 && s[0] == 87 && s[1] == 101 && s[2] == 100 && s[3] == 110
        && s[4] == 101 && s[5] == 115 && s[6] == 100 && s[7] == 97 && s[8] == 121 { 4 }  // Wednesday
    else if s.len() >= 8 && s[0] == 84 && s[1] == 104 && s[2] == 117 && s[3] == 114
        && s[4] == 115 && s[5] == 100 && s[6] == 97 && s[7] == 121 { 5 }      // Thursday
    else if s.len() >= 6 && s[0] == 70 && s[1] == 114 && s[2] == 105 && s[3] == 100
        && s[4] == 97 && s[5] == 121 { 6 }                                    // Friday
    else { -1 }
}

pub open spec fn wkfull_len(d: int) -> int {
    if d == 0 { 8 }          // Saturday
    else if d == 1 { 6 }     // Sunday
    else if d == 2 { 6 }     // Monday
    else if d == 3 { 7 }     // Tuesday
    else if d == 4 { 9 }     // Wednesday
    else if d == 5 { 8 }     // Thursday
    else { 6 }               // Friday
}

/// The year meant by the two-digit year field of an RFC 850 date.
pub open spec fn rfc850_year(s: Seq<u8>) -> int {
    let n = wkfull_len(wkfull_day(s));
    let yy = d2(s, n + 9);
    if yy <= 68 { 2000 + yy } else { 1900 + yy }
}

/// `Sunday, 06-Nov-94 08:49:37 GMT`
pub open spec fn rfc850_matches(s: Seq<u8>) -> bool {
    let wd = wkfull_day(s);
    let n = wkfull_len(wd);
    wd >= 0
    && s.len() == n + 24
    && s[n] == 44 && s[n + 1] == 32
    && digits2_at(s, n + 2)
    && s[n + 4] == 45
    && month_at(s, n + 5) >= 1
    && s[n + 8] == 45
    && digits2_at(s, n + 9)
    && s[n + 11] == 32
    && time_at(s, n + 12)
    && s[n + 20] == 32 && s[n + 21] == 71 && s[n + 22] == 77 && s[n + 23] == 84
    && valid_date(rfc850_year(s), month_at(s, n + 5), d2(s, n + 2))
    && valid_time(d2(s, n + 12), d2(s, n + 15), d2(s, n + 18))
    && wd == weekday_of_day(day_number(rfc850_year(s), month_at(s, n + 5), d2(s, n + 2)))
}

pub open spec fn rfc850_instant(s: Seq<u8>) -> int {
    let n = wkfull_len(wkfull_day(s));
    unix_seconds_of(rfc850_year(s), month_at(s, n + 5), d2(s, n + 2),
        d2(s, n + 12), d2(s, n + 15), d2(s, n + 18))
}

/// The day field of an asctime date: space-padded or two digits.
pub open spec fn asctime_day(s: Seq<u8>) -> int {
    if s[8] == 32 { s[9] - 48 } else { d2(s, 8) }
}

/// `Sun Nov  6 08:49:37 1994`
pub open spec fn asctime_matches(s: Seq<u8>) -> bool {
    s.len() == 24
    && wk3_at(s, 0) >= 0
    && s[3] == 32
    && month_at(s, 4) >= 1
    && s[7] == 32
    && ((s[8] == 32 && is_digit(s[9])) || digits2_at(s, 8))
    && s[10] == 32
    && time_at(s, 11)
    && s[19] == 32
    && digits4_at(s, 20)
    && valid_date(d4(s, 20), month_at(s, 4), asctime_day(s))
    && valid_time(d2(s, 11), d2(s, 14), d2(s, 17))
    && wk3_at(s, 0) == weekday_of_day(day_number(d4(s, 20), month_at(s, 4), asctime_day(s)))
}

pub open spec fn asctime_instant(s: Seq<u8>) -> int {
    unix_seconds_of(d4(s, 20), month_at(s, 4), asctime_day(s),
        d2(s, 11), d2(s, 14), d2(s, 17))
}

fn read_two_digits(s: &[u8], i: usize) -> (r: Option<u64>)
    requires i + 2 <= s@.len(),
    ensures
        r is Some <==> digits2_at(s@, i as int),
        r matches Some(v) ==> v as int == d2(s@, i as int) && v <= 99,
{
    let b0 = s[i];
    let b1 = s[i + 1];
    if 48 <= b0 && b0 <= 57 && 48 <= b1 && b1 <= 57 {
        Some(((b0 - 48) as u64) * 10 + ((b1 - 48) as u64))
    } else {
        None
    }
}

fn read_weekday3(s: &[u8], i: usize) -> (r: Option<u64>)
    requires i + 3 <= s@.len(),
    ensures
        r is Some <==> wk3_at(s@, i as int) >= 0,
        r matches Some(v) ==> v as int == wk3_at(s@, i as int) && v <= 6,
{
    let b0 = s[i];
    let b1 = s[i + 1];
    let b2 = s[i + 2];
    if b0 == 83 && b1 == 97 && b2 == 116 { Some(0) }
    else if b0 == 83 && b1 == 117 && b2 == 110 { Some(1) }
    else if b0 == 77 && b1 == 111 && b2 == 110 { Some(2) }
    else if b0 == 84 && b1 == 117 && b2 == 101 { Some(3) }
    else if b0 == 87 && b1 == 101 && b2 == 100 { Some(4) }
    else if b0 == 84 && b1 == 104 && b2 == 117 { Some(5) }
    else if b0 == 70 && b1 == 114 && b2 == 105 { Some(6) }
    else { None }
}

fn read_month3(s: &[u8], i: usize) -> (r: Option<u64>)
    requires i + 3 <= s@.len(),
    ensures
        r is Some <==> month_at(s@, i as int) >= 1,
        r matches Some(v) ==> v as int == month_at(s@, i as int) && 1 <= v <= 12,
{
    let b0 = s[i];
    let b1 = s[i + 1];
    let b2 = s[i + 2];
    if b0 == 74 && b1 == 97 && b2 == 110 { Some(1) }
    else if b0 == 70 && b1 == 101 && b2 == 98 { Some(2) }
    else if b0 == 77 && b1 == 97 && b2 == 114 { Some(3) }
    else if b0 == 65 && b1 == 112 && b2 == 114 { Some(4) }
    else if b0 == 77 && b1 == 97 && b2 == 121 { Some(5) }
    else if b0 == 74 && b1 == 117 && b2 == 110 { Some(6) }
    else if b0 == 74 && b1 == 117 && b2 == 108 { Some(7) }
    else if b0 == 65 && b1 == 117 && b2 == 103 { Some(8) }
    else if b0 == 83 && b1 == 101 && b2 == 112 { Some(9) }
    else if b0 == 79 && b1 == 99 && b2 == 116 { Some(10) }
    else if b0 == 78 && b1 == 111 && b2 == 118 { Some(11) }
    else if b0 == 68 && b1 == 101 && b2 == 99 { Some(12) }
    else { None }
}

fn read_time(s: &[u8], i: usize) -> (r: Option<(u64, u64, u64)>)
    requires i + 8 <= s@.len(),
    ensures
        r is Some <==> time_at(s@, i as int),
        r matches Some(v) ==> v.0 as int == d2(s@, i as int)
            && v.1 as int == d2(s@, i as int + 3)
            && v.2 as int == d2(s@, i as int + 6)
            && v.0 <= 99 && v.1 <= 99 && v.2 <= 99,
{
    let n = s.len();
    proof { assert(i + 8 <= n); }
    let h = match read_two_digits(s, i) { Some(v) => v, None => { return None; } };
    if s[i + 2] != 58 { return None; }
    let mi = match read_two_digits(s, i + 3) { Some(v) => v, None => { return None; } };
    if s[i + 5] != 58 { return None; }
    let sec = match read_two_digits(s, i + 6) { Some(v) => v, None => { return None; } };
    Some((h, mi, sec))
}

fn read_weekday_full(s: &[u8]) -> (r: Option<(u64, usize)>)
    ensures
        r is Some <==> wkfull_day(s@) >= 0,
        r matches Some(v) ==> v.0 as int == wkfull_day(s@)
            && v.1 as int == wkfull_len(wkfull_day(s@))
            && v.0 <= 6 && 6 <= v.1 <= 9 && v.1 <= s@.len(),
{
    let n = s.len();
    if n >= 8 && s[0] == 83 && s[1] == 97 && s[2] == 116 && s[3] == 117
        && s[4] == 114 && s[5] == 100 && s[6] == 97 && s[7] == 121 {
        Some((0, 8))
    } else if n >= 6 && s[0] == 83 && s[1] == 117 && s[2] == 110 && s[3] == 100
        && s[4] == 97 && s[5] == 121 {
        Some((1, 6))
    } else if n >= 6 && s[0] == 77 && s[1] == 111 && s[2] == 110 && s[3] == 100
        && s[4] == 97 && s[5] == 121 {
        Some((2, 6))
    } else if n >= 7 && s[0] == 84 && s[1] == 117 && s[2] == 101 && s[3] == 115
        && s[4] == 100 && s[5] == 97 && s[6] == 121 {
        Some((3, 7))
    } else if n >= 9 && s[0] == 87 && s[1] == 101 && s[2] == 100 && s[3] == 110
        && s[4] == 101 && s[5] == 115 && s[6] == 100 && s[7] == 97 && s[8] == 121 {
        Some((4, 9))
    } else if n >= 8 && s[0] == 84 && s[1] == 104 && s[2] == 117 && s[3] == 114
        && s[4] == 115 && s[5] == 100 && s[6] == 97 && s[7] == 121 {
        Some((5, 8))
    } else if n >= 6 && s[0] == 70 && s[1] == 114 && s[2] == 105 && s[3] == 100
        && s[4] == 97 && s[5] == 121 {
        Some((6, 6))
    } else {
        None
    }
}

/// Parse an RFC 1123 date; the only format that encoding ever produces.
pub fn parse_rfc1123(s: &[u8]) -> (r: Option<i64>)
    ensures
        r is Some <==> rfc1123_matches(s@),
        r matches Some(t) ==> t as int == rfc1123_instant(s@) && ts_in_range(t as int),
{
    if s.len() != 29 { return None; }
    let wd = match read_weekday3(s, 0) { Some(v) => v, None => { return None; } };
    if !(s[3] == 44 && s[4] == 32) { return None; }
    let day = match read_two_digits(s, 5) { Some(v) => v, None => { return None; } };
    if s[7] != 32 { return None; }
    let mon = match read_month3(s, 8) { Some(v) => v, None => { return None; } };
    if s[11] != 32 { return None; }
    let yh = match read_two_digits(s, 12) { Some(v) => v, None => { return None; } };
    let yl = match read_two_digits(s, 14) { Some(v) => v, None => { return None; } };
    let year = yh * 100 + yl;
    if s[16] != 32 { return None; }
    let (h, mi, sec) = match read_time(s, 17) { Some(v) => v, None => { return None; } };
    if !(s[25] == 32 && s[26] == 71 && s[27] == 77 && s[28] == 84) { return None; }
    if !(1 <= day && day <= month_length(year, mon)) { return None; }
    if !(h <= 23 && mi <= 59 && sec <= 59) { return None; }
    let dn = day_number_of(year, mon, day);
    if wd != dn % 7 { return None; }
    Some(unix_of_civil(year, mon, day, h, mi, sec))
}

/// Parse an RFC 850 date (two-digit year; 00-68 mean 2000-2068, 69-99
/// mean 1969-1999).
pub fn parse_rfc850(s: &[u8]) -> (r: Option<i64>)
    ensures
        r is Some <==> rfc850_matches(s@),
        r matches Some(t) ==> t as int == rfc850_instant(s@) && ts_in_range(t as int),
{
    let (wd, n) = match read_weekday_full(s) { Some(v) => v, None => { return None; } };
    if s.len() != n + 24 { return None; }
    if !(s[n] == 44 && s[n + 1] == 32) { return None; }
    let day = match read_two_digits(s, n + 2) { Some(v) => v, None => { return None; } };
    if s[n + 4] != 45 { return None; }
    let mon = match read_month3(s, n + 5) { Some(v) => v, None => { return None; } };
    if s[n + 8] != 45 { return None; }
    let yy = match read_two_digits(s, n + 9) { Some(v) => v, None => { return None; } };
    if s[n + 11] != 32 { return None; }
    let (h, mi, sec) = match read_time(s, n + 12) { Some(v) => v, None => { return None; } };
    if !(s[n + 20] == 32 && s[n + 21] == 71 && s[n + 22] == 77 && s[n + 23] == 84) {
        return None;
    }
    let year = if yy <= 68 { 2000 + yy } else { 1900 + yy };
    if !(1 <= day && day <= month_length(year, mon)) { return None; }
    if !(h <= 23 && mi <= 59 && sec <= 59) { return None; }
    let dn = day_number_of(year, mon, day);
    if wd != dn % 7 { return None; }
    Some(unix_of_civil(year, mon, day, h, mi, sec))
}

/// Parse an ANSI C asctime date (day space-padded or two digits).
pub fn parse_asctime(s: &[u8]) -> (r: Option<i64>)
    ensures
        r is Some <==> asctime_matches(s@),
        r matches Some(t) ==> t as int == asctime_instant(s@) && ts_in_range(t as int),
{
    if s.len() != 24 { return None; }
    let wd = match read_weekday3(s, 0) { Some(v) => v, None => { return None; } };
    if s[3] != 32 { return None; }
    let mon = match read_month3(s, 4) { Some(v) => v, None => { return None; } };
    if s[7] != 32 { return None; }
    let b8 = s[8];
    let b9 = s[9];
    let day: u64;
    if b8 == 32 && 48 <= b9 && b9 <= 57 {
        day = (b9 - 48) as u64;
    } else if 48 <= b8 && b8 <= 57 && 48 <= b9 && b9 <= 57 {
        day = ((b8 - 48) as u64) * 10 + ((b9 - 48) as u64);
    } else {
        return None;
    }
    if s[10] != 32 { return None; }
    let (h, mi, sec) = match read_time(s, 11) { Some(v) => v, None => { return None; } };
    if s[19] != 32 { return None; }
    let yh = match read_two_digits(s, 20) { Some(v) => v, None => { return None; } };
    let yl = match read_two_digits(s, 22) { Some(v) => v, None => { return None; } };
    let year = yh * 100 + yl;
    if !(1 <= day && day <= month_length(year, mon)) { return None; }
    if !(h <= 23 && mi <= 59 && sec <= 59) { return None; }
    let dn = day_number_of(year, mon, day);
    if wd != dn % 7 { return None; }
    Some(unix_of_civil(year, mon, day, h, mi, sec))
}

pub open spec fn wk3_name(d: int) -> Seq<u8> {
    if d == 0 { seq![83u8, 97u8, 116u8] }         // Sat
    else if d == 1 { seq![83u8, 117u8, 110u8] }   // Sun
    else if d == 2 { seq![77u8, 111u8, 110u8] }   // Mon
    else if d == 3 { seq![84u8, 117u8, 101u8] }   // Tue
    else if d == 4 { seq![87u8, 101u8, 100u8] }   // Wed
    else if d == 5 { seq![84u8, 104u8, 117u8] }   // Thu
    else { seq![70u8, 114u8, 105u8] }             // Fri
}

pub open spec fn mon3_name(m: int) -> Seq<u8> {
    if m == 1 { seq![74u8, 97u8, 110u8] }         // Jan
    else if m == 2 { seq![70u8, 101u8, 98u8] }    // Feb
    else if m == 3 { seq![77u8, 97u8, 114u8] }    // Mar
    else if m == 4 { seq![65u8, 112u8, 114u8] }   // Apr
    else if m == 5 { seq![77u8, 97u8, 121u8] }    // May
    else if m == 6 { seq![74u8, 117u8, 110u8] }   // Jun
    else if m == 7 { seq![74u8, 117u8, 108u8] }   // Jul
    else if m == 8 { seq![65u8, 117u8, 103u8] }   // Aug
    else if m == 9 { seq![83u8, 101u8, 112u8] }   // Sep
    else if m == 10 { seq![79u8, 99u8, 116u8] }   // Oct
    else if m == 11 { seq![78u8, 111u8, 118u8] }  // Nov
    else { seq![68u8, 101u8, 99u8] }              // Dec
}

/// A number rendered as exactly two decimal digits, zero-padded.
pub open spec fn two_digits_seq(n: int) -> Seq<u8> {
    seq![(48 + n / 10) as u8, (48 + n % 10) as u8]
}

/// A number rendered as exactly four decimal digits, zero-padded.
pub open spec fn four_digits_seq(n: int) -> Seq<u8> {
    two_digits_seq(n / 100) + two_digits_seq(n % 100)
}

/// The RFC 1123 rendering of a wall-clock reading.
pub open spec fn rfc1123_render_fields(wd: int, y: int, m: int, d: int, h: int, mi: int, s: int) -> Seq<u8> {
    wk3_name(wd) + seq![44u8, 32u8] + two_digits_seq(d) + seq![32u8] + mon3_name(m)
        + seq![32u8] + four_digits_seq(y) + seq![32u8] + two_digits_seq(h) + seq![58u8]
        + two_digits_seq(mi) + seq![58u8] + two_digits_seq(s) + seq![32u8, 71u8, 77u8, 84u8]
}

/// The RFC 1123 rendering of an in-range instant.
pub open spec fn rfc1123_render(ts: int) -> Seq<u8> {
    rfc1123_render_fields(
        weekday_of_day(day_of_ts(ts)),
        year_of_ts(ts),
        month_of_ts(ts),
        dom_of_ts(ts),
        hour_of_ts(ts),
        minute_of_ts(ts),
        second_of_ts(ts),
    )
}

proof fn lemma_two_digits_seq(n: int)
    requires 0 <= n <= 99,
    ensures
        two_digits_seq(n).len() == 2,
        is_digit(two_digits_seq(n)[0]),
        is_digit(two_digits_seq(n)[1]),
        (two_digits_seq(n)[0] - 48) * 10 + (two_digits_seq(n)[1] - 48) == n,
{
    vstd::arithmetic::div_mod::lemma_div_pos_is_pos(n, 10);
    vstd::arithmetic::div_mod::lemma_div_is_ordered(n, 99, 10);
    vstd::arithmetic::div_mod::lemma_fundamental_div_mod(n, 10);
}

proof fn lemma_four_digits_seq(n: int)
    requires 0 <= n <= 9999,
    ensures
        four_digits_seq(n).len() == 4,
        is_digit(four_digits_seq(n)[0]),
        is_digit(four_digits_seq(n)[1]),
        is_digit(four_digits_seq(n)[2]),
        is_digit(four_digits_seq(n)[3]),
        ({
            let t = four_digits_seq(n);
            ((t[0] - 48) * 10 + (t[1] - 48)) * 100 + ((t[2] - 48) * 10 + (t[3] - 48)) == n
        }),
{
    vstd::arithmetic::div_mod::lemma_div_pos_is_pos(n, 100);
    vstd::arithmetic::div_mod::lemma_div_is_ordered(n, 9999, 100);
    vstd::arithmetic::div_mod::lemma_fundamental_div_mod(n, 100);
    lemma_two_digits_seq(n / 100);
    lemma_two_digits_seq(n % 100);
}

/// The rendering of a valid wall-clock reading with its true weekday
/// matches the RFC 1123 grammar, reads back field for field, and holds
/// printable ASCII only.
proof fn lemma_render_fields(wd: int, y: int, m: int, d: int, h: int, mi: int, s: int)
    requires
        valid_date(y, m, d),
        valid_time(h, mi, s),
        0 <= wd <= 6,
        wd == weekday_of_day(day_number(y, m, d)),
    ensures
        ({
            let t = rfc1123_render_fields(wd, y, m, d, h, mi, s);
            rfc1123_matches(t)
            && d4(t, 12) == y && month_at(t, 8) == m && d2(t, 5) == d
            && d2(t, 17) == h && d2(t, 20) == mi && d2(t, 23) == s
            && wk3_at(t, 0) == wd
            && (forall|i: int| 0 <= i < t.len() ==> 32 <= #[trigger] t[i] <= 122)
        }),
{
    let t = rfc1123_render_fields(wd, y, m, d, h, mi, s);
    lemma_two_digits_seq(d);
    lemma_two_digits_seq(h);
    lemma_two_digits_seq(mi);
    lemma_two_digits_seq(s);
    lemma_four_digits_seq(y);
    let wk = wk3_name(wd);
    let mn = mon3_name(m);
    let dd = two_digits_seq(d);
    let yr = four_digits_seq(y);
    let hh = two_digits_seq(h);
    let mm = two_digits_seq(mi);
    let ss = two_digits_seq(s);
    assert(t =~= seq![
        wk[0], wk[1], wk[2], 44u8, 32u8, dd[0], dd[1], 32u8, mn[0], mn[1], mn[2], 32u8,
        yr[0], yr[1], yr[2], yr[3], 32u8, hh[0], hh[1], 58u8, mm[0], mm[1], 58u8,
        ss[0], ss[1], 32u8, 71u8, 77u8, 84u8,
    ]);
    assert(wk3_at(t, 0) == wd);
    assert(month_at(t, 8) == m);
    assert(d2(t, 5) == d);
    assert(d4(t, 12) == y);
    assert(d2(t, 17) == h && d2(t, 20) == mi && d2(t, 23) == s);
    assert(rfc1123_matches(t));
    assert forall|i: int| 0 <= i < t.len() implies 32 <= #[trigger] t[i] <= 122 by {
        assert(32 <= wk[0] <= 122 && 32 <= wk[1] <= 122 && 32 <= wk[2] <= 122);
        assert(32 <= mn[0] <= 122 && 32 <= mn[1] <= 122 && 32 <= mn[2] <= 122);
    }
}

/// Rendering an in-range instant and parsing the rendering gives the
/// instant back; this is the round trip behind `Retry-After` dates.
pub proof fn lemma_rfc1123_render_parses(ts: int)
    requires ts_in_range(ts),
    ensures
        rfc1123_matches(rfc1123_render(ts)),
        rfc1123_instant(rfc1123_render(ts)) == ts,
        forall|i: int| 0 <= i < rfc1123_render(ts).len()
            ==> 32 <= #[trigger] rfc1123_render(ts)[i] <= 122,
{
    lemma_ts_fields(ts);
    let total = ts + crate::calendar::SECS_FROM_YEAR_0_TO_EPOCH;
    vstd::arithmetic::div_mod::lemma_div_pos_is_pos(total, 86400);
    vstd::arithmetic::div_mod::lemma_fundamental_div_mod(day_of_ts(ts), 7);
    assert(0 <= weekday_of_day(day_of_ts(ts)) <= 6) by {
        vstd::arithmetic::div_mod::lemma_mod_bound(day_of_ts(ts), 7);
    }
    lemma_render_fields(
        weekday_of_day(day_of_ts(ts)),
        year_of_ts(ts),
        month_of_ts(ts),
        dom_of_ts(ts),
        hour_of_ts(ts),
        minute_of_ts(ts),
        second_of_ts(ts),
    );
}

/// A string matching the RFC 1123 grammar is printable ASCII and is not a
/// run of digits.
pub proof fn lemma_rfc1123_text(s: Seq<u8>)
    requires rfc1123_matches(s),
    ensures
        s.len() == 29,
        forall|i: int| 0 <= i < s.len() ==> #[trigger] s[i] < 128,
        !crate::decimal::all_digits(s),
{
    assert(!is_digit(s[3]));
    assert forall|i: int| 0 <= i < s.len() implies #[trigger] s[i] < 128 by {
    }
}

/// A string matching the RFC 850 grammar is printable ASCII and is not a
/// run of digits.
pub proof fn lemma_rfc850_text(s: Seq<u8>)
    requires rfc850_matches(s),
    ensures
        s.len() == wkfull_len(wkfull_day(s)) + 24,
        forall|i: int| 0 <= i < s.len() ==> #[trigger] s[i] < 128,
        !crate::decimal::all_digits(s),
{
    let n = wkfull_len(wkfull_day(s));
    assert(!is_digit(s[n]));
    assert forall|i: int| 0 <= i < s.len() implies #[trigger] s[i] < 128 by {
    }
}

/// A string matching the asctime grammar is printable ASCII and is not a
/// run of digits.
pub proof fn lemma_asctime_text(s: Seq<u8>)
    requires asctime_matches(s),
    ensures
        s.len() == 24,
        forall|i: int| 0 <= i < s.len() ==> #[trigger] s[i] < 128,
        !crate::decimal::all_digits(s),
{
    assert(!is_digit(s[3]));
    assert forall|i: int| 0 <= i < s.len() implies #[trigger] s[i] < 128 by {
    }
}

fn push_weekday3(out: &mut Vec<u8>, wd: u64)
    requires wd <= 6,
    ensures final(out)@ == old(out)@ + wk3_name(wd as int),
{
    if wd == 0 { out.push(83); out.push(97); out.push(116); }
    else if wd == 1 { out.push(83); out.push(117); out.push(110); }
    else if wd == 2 { out.push(77); out.push(111); out.push(110); }
    else if wd == 3 { out.push(84); out.push(117); out.push(101); }
    else if wd == 4 { out.push(87); out.push(101); out.push(100); }
    else if wd == 5 { out.push(84); out.push(104); out.push(117); }
    else { out.push(70); out.push(114); out.push(105); }
    proof {
        assert(out@ =~= old(out)@ + wk3_name(wd as int));
    }
}

fn push_month3(out: &mut Vec<u8>, m: u64)
    requires 1 <= m <= 12,
    ensures final(out)@ == old(out)@ + mon3_name(m as int),
{
    if m == 1 { out.push(74); out.push(97); out.push(110); }
    else if m == 2 { out.push(70); out.push(101); out.push(98); }
    else if m == 3 { out.push(77); out.push(97); out.push(114); }
    else if m == 4 { out.push(65); out.push(112); out.push(114); }
    else if m == 5 { out.push(77); out.push(97); out.push(121); }
    else if m == 6 { out.push(74); out.push(117); out.push(110); }
    else if m == 7 { out.push(74); out.push(117); out.push(108); }
    else if m == 8 { out.push(65); out.push(117); out.push(103); }
    else if m == 9 { out.push(83); out.push(101); out.push(112); }
    else if m == 10 { out.push(79); out.push(99); out.push(116); }
    else if m == 11 { out.push(78); out.push(111); out.push(118); }
    else { out.push(68); out.push(101); out.push(99); }
    proof {
        assert(out@ =~= old(out)@ + mon3_name(m as int));
    }
}

fn push_two_digits(out: &mut Vec<u8>, n: u64)
    requires n <= 99,
    ensures final(out)@ == old(out)@ + two_digits_seq(n as int),
{
    out.push(48 + (n / 10) as u8);
    out.push(48 + (n % 10) as u8);
    proof {
        assert(out@ =~= old(out)@ + two_digits_seq(n as int));
    }
}

fn push_four_digits(out: &mut Vec<u8>, n: u64)
    requires n <= 9999,
    ensures final(out)@ == old(out)@ + four_digits_seq(n as int),
{
    push_two_digits(out, n / 100);
    push_two_digits(out, n % 100);
    proof {
        assert(out@ =~= old(out)@ + four_digits_seq(n as int));
    }
}

/// Write an in-range instant in the RFC 1123 format, the only date format
/// that encoding ever produces.
pub fn format_rfc1123(ts: i64) -> (r: Vec<u8>)
    requires ts_in_range(ts as int),
    ensures r@ == rfc1123_render(ts as int),
{
    let c = civil_of_unix(ts);
    let mut out: Vec<u8> = Vec::new();
    push_weekday3(&mut out, c.weekday);
    out.push(44);
    out.push(32);
    push_two_digits(&mut out, c.day);
    out.push(32);
    push_month3(&mut out, c.month);
    out.push(32);
    push_four_digits(&mut out, c.year);
    out.push(32);
    push_two_digits(&mut out, c.hour);
    out.push(58);
    push_two_digits(&mut out, c.minute);
    out.push(58);
    push_two_digits(&mut out, c.second);
    out.push(32);
    out.push(71);
    out.push(77);
    out.push(84);
    proof {
        assert(out@ =~= rfc1123_render(ts as int));
    }
    out
}

} // verus!
