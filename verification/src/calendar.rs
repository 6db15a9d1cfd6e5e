//! Proleptic Gregorian calendar arithmetic over plain integers.
//!
//! An absolute day number counts days since 0000-01-01 (year 0 is a leap
//! year).  An instant is a count of seconds since the Unix epoch
//! 1970-01-01T00:00:00 UTC, which is absolute day 719528.

use vstd::prelude::*;

verus! {

/// Seconds from 0000-01-01T00:00:00 to 1970-01-01T00:00:00 (719528 days).
pub const SECS_FROM_YEAR_0_TO_EPOCH: i64 = 62167219200;

pub open spec fn is_leap_year(y: int) -> bool {
    (y % 4 == 0 && y % 100 != 0) || y % 400 == 0
}

pub open spec fn days_in_year(y: int) -> int {
    if is_leap_year(y) { 366 } else { 365 }
}

/// Leap years in the range `[0, y)`; year 0 itself is a leap year.
pub open spec fn leap_days_before(y: int) -> int {
    (y + 3) / 4 - (y + 99) / 100 + (y + 399) / 400
}

/// Days from 0000-01-01 up to the first day of year `y`.
pub open spec fn days_before_year(y: int) -> int {
    365 * y + leap_days_before(y)
}

pub open spec fn days_in_month(y: int, m: int) -> int {
    if m == 1 { 31 }
    else if m == 2 { if is_leap_year(y) { 29 } else { 28 } }
    else if m == 3 { 31 }
    else if m == 4 { 30 }
    else if m == 5 { 31 }
    else if m == 6 { 30 }
    else if m == 7 { 31 }
    else if m == 8 { 31 }
    else if m == 9 { 30 }
    else if m == 10 { 31 }
    else if m == 11 { 30 }
    else if m == 12 { 31 }
    else { 0 }
}

/// Days from the first of January of year `y` up to the first of month `m`.
pub open spec fn days_before_month(y: int, m: int) -> int
    decreases m,
{
    if m <= 1 { 0 } else { days_before_month(y, m - 1) + days_in_month(y, m - 1) }
}

/// Absolute day number of the civil date `y-m-d` (with `d` 1-based).
pub open spec fn day_number(y: int, m: int, d: int) -> int {
    days_before_year(y) + days_before_month(y, m) + (d - 1)
}

pub open spec fn valid_date(y: int, m: int, d: int) -> bool {
    0 <= y <= 9999 && 1 <= m <= 12 && 1 <= d <= days_in_month(y, m)
}

pub open spec fn valid_time(h: int, mi: int, s: int) -> bool {
    0 <= h <= 23 && 0 <= mi <= 59 && 0 <= s <= 59
}

/// Unix seconds of the UTC wall-clock reading `y-m-d h:mi:s`.
pub open spec fn unix_seconds_of(y: int, m: int, d: int, h: int, mi: int, s: int) -> int {
    day_number(y, m, d) * 86400 + h * 3600 + mi * 60 + s - SECS_FROM_YEAR_0_TO_EPOCH
}

/// Weekday of an absolute day number: 0 = Saturday, 1 = Sunday, ...,
/// 6 = Friday (0000-01-01 was a Saturday).
pub open spec fn weekday_of_day(n: int) -> int {
    n % 7
}

proof fn lemma_leap_step_one(y: int, d: int)
    requires y >= 0, 0 < d,
    ensures (y + d) / d == (y + d - 1) / d + if y % d == 0 { 1int } else { 0int },
{
    let q = y / d;
    let r = y % d;
    vstd::arithmetic::div_mod::lemma_fundamental_div_mod(y, d);
    assert(y == d * q + r);
    vstd::arithmetic::div_mod::lemma_hoist_over_denominator(r + d - 1, q, d as nat);
    vstd::arithmetic::div_mod::lemma_hoist_over_denominator(r + d, q, d as nat);
    assert((y + d - 1) / d == (r + d - 1) / d + q);
    assert((y + d) / d == (r + d) / d + q);
    vstd::arithmetic::div_mod::lemma_div_multiples_vanish_fancy(1, r, d);
    assert((r + d) / d == 1);
    if r == 0 {
        vstd::arithmetic::div_mod::lemma_div_multiples_vanish_fancy(0, d - 1, d);
        assert((r + d - 1) / d == 0);
    } else {
        vstd::arithmetic::div_mod::lemma_div_multiples_vanish_fancy(1, r - 1, d);
        assert((r + d - 1) / d == 1);
    }
}

/// Passing from year `y` to year `y + 1` adds exactly the length of year `y`.
pub proof fn lemma_year_step(y: int)
    requires y >= 0,
    ensures days_before_year(y + 1) == days_before_year(y) + days_in_year(y),
{
    lemma_leap_step_one(y, 4);
    lemma_leap_step_one(y, 100);
    lemma_leap_step_one(y, 400);
}

/// `days_before_year` grows by at least 365 per year.
pub proof fn lemma_days_before_year_mono(y1: int, y2: int)
    requires 0 <= y1 <= y2,
    ensures days_before_year(y1) + 365 * (y2 - y1) <= days_before_year(y2),
    decreases y2 - y1,
{
    if y1 < y2 {
        lemma_days_before_year_mono(y1, y2 - 1);
        lemma_year_step(y2 - 1);
    }
}

/// The twelve month lengths sum to the year length.
pub proof fn lemma_months_fill_year(y: int)
    ensures days_before_month(y, 13) == days_in_year(y),
{
    reveal_with_fuel(days_before_month, 14);
}

/// `days_before_month` is monotone in the month.
pub proof fn lemma_days_before_month_mono(y: int, m1: int, m2: int)
    requires 1 <= m1 <= m2,
    ensures days_before_month(y, m1) <= days_before_month(y, m2),
    decreases m2 - m1,
{
    if m1 < m2 {
        lemma_days_before_month_mono(y, m1, m2 - 1);
    }
}

/// The year that an absolute day number falls in, searched upward from `y`.
pub open spec fn year_lookup(n: int, y: int) -> int
    decreases 10000 - y,
{
    if y < 0 || y >= 9999 {
        y
    } else if n < days_before_year(y + 1) {
        y
    } else {
        year_lookup(n, y + 1)
    }
}

/// The year that absolute day number `n` falls in.
pub open spec fn year_of_day(n: int) -> int {
    year_lookup(n, 0)
}

proof fn lemma_year_lookup(n: int, y: int)
    requires
        0 <= y <= 9999,
        days_before_year(y) <= n,
        n < days_before_year(10000),
    ensures
        ({ let yr = year_lookup(n, y);
            y <= yr <= 9999 && days_before_year(yr) <= n < days_before_year(yr + 1) }),
    decreases 10000 - y,
{
    if y < 9999 && n >= days_before_year(y + 1) {
        lemma_year_lookup(n, y + 1);
    }
}

/// `year_of_day(n)` is the unique year whose days contain day `n`.
pub proof fn lemma_year_of_day(n: int)
    requires 0 <= n < days_before_year(10000),
    ensures
        ({ let yr = year_of_day(n);
            0 <= yr <= 9999 && days_before_year(yr) <= n < days_before_year(yr + 1) }),
{
    lemma_year_lookup(n, 0);
}

/// The month that day-of-year `d` of year `y` falls in, searched upward from `m`.
pub open spec fn month_lookup(y: int, d: int, m: int) -> int
    decreases 13 - m,
{
    if m < 1 || m >= 12 {
        m
    } else if d < days_before_month(y, m + 1) {
        m
    } else {
        month_lookup(y, d, m + 1)
    }
}

/// The month that day-of-year `d` (0-based) of year `y` falls in.
pub open spec fn month_of_year_day(y: int, d: int) -> int {
    month_lookup(y, d, 1)
}

proof fn lemma_month_lookup(y: int, d: int, m: int)
    requires
        1 <= m <= 12,
        days_before_month(y, m) <= d,
        d < days_in_year(y),
    ensures
        ({ let mo = month_lookup(y, d, m);
            m <= mo <= 12 && days_before_month(y, mo) <= d < days_before_month(y, mo + 1) }),
    decreases 13 - m,
{
    lemma_months_fill_year(y);
    if m < 12 && d >= days_before_month(y, m + 1) {
        lemma_month_lookup(y, d, m + 1);
    }
}

/// `month_of_year_day(y, d)` is the unique month whose days contain `d`.
pub proof fn lemma_month_of_year_day(y: int, d: int)
    requires 0 <= d < days_in_year(y),
    ensures
        ({ let mo = month_of_year_day(y, d);
            1 <= mo <= 12
            && days_before_month(y, mo) <= d < days_before_month(y, mo) + days_in_month(y, mo) }),
{
    lemma_month_lookup(y, d, 1);
    let mo = month_of_year_day(y, d);
    assert(days_before_month(y, mo + 1) == days_before_month(y, mo) + days_in_month(y, mo));
}

/// Earliest instant of the wire format: 0000-01-01T00:00:00.
pub const MIN_DATE_SECONDS: i64 = -62167219200;

/// Latest instant of the wire format: 9999-12-31T23:59:59.
pub const MAX_DATE_SECONDS: i64 = 253402300799;

pub open spec fn ts_in_range(ts: int) -> bool {
    MIN_DATE_SECONDS <= ts <= MAX_DATE_SECONDS
}

pub open spec fn day_of_ts(ts: int) -> int {
    (ts + SECS_FROM_YEAR_0_TO_EPOCH) / 86400
}

pub open spec fn secs_of_ts(ts: int) -> int {
    (ts + SECS_FROM_YEAR_0_TO_EPOCH) % 86400
}

pub open spec fn year_of_ts(ts: int) -> int {
    year_of_day(day_of_ts(ts))
}

pub open spec fn yearday_of_ts(ts: int) -> int {
    day_of_ts(ts) - days_before_year(year_of_ts(ts))
}

pub open spec fn month_of_ts(ts: int) -> int {
    month_of_year_day(year_of_ts(ts), yearday_of_ts(ts))
}

pub open spec fn dom_of_ts(ts: int) -> int {
    yearday_of_ts(ts) - days_before_month(year_of_ts(ts), month_of_ts(ts)) + 1
}

pub open spec fn hour_of_ts(ts: int) -> int {
    secs_of_ts(ts) / 3600
}

pub open spec fn minute_of_ts(ts: int) -> int {
    (secs_of_ts(ts) % 3600) / 60
}

pub open spec fn second_of_ts(ts: int) -> int {
    (secs_of_ts(ts) % 3600) % 60
}

/// The civil reading of an in-range instant is a valid date and time, and
/// converting it back gives the instant again.
pub proof fn lemma_ts_fields(ts: int)
    requires ts_in_range(ts),
    ensures
        ({
            let y = year_of_ts(ts);
            let m = month_of_ts(ts);
            let d = dom_of_ts(ts);
            let h = hour_of_ts(ts);
            let mi = minute_of_ts(ts);
            let s = second_of_ts(ts);
            valid_date(y, m, d) && valid_time(h, mi, s)
            && unix_seconds_of(y, m, d, h, mi, s) == ts
            && day_number(y, m, d) == day_of_ts(ts)
        }),
{
    let total = ts + SECS_FROM_YEAR_0_TO_EPOCH;
    let days = total / 86400;
    let rem = total % 86400;
    vstd::arithmetic::div_mod::lemma_fundamental_div_mod(total, 86400);
    assert(days >= 0) by {
        if days < 0 {
            assert(86400 * days <= 86400 * (-1));
        }
    }
    assert(days < 3652425) by {
        if days >= 3652425 {
            assert(86400 * days >= 86400 * 3652425);
        }
    }
    lemma_year_of_day(days);
    let y = year_of_day(days);
    lemma_year_step(y);
    let yd = days - days_before_year(y);
    lemma_month_of_year_day(y, yd);
    let m = month_of_year_day(y, yd);
    let d = yd - days_before_month(y, m) + 1;
    vstd::arithmetic::div_mod::lemma_fundamental_div_mod(rem, 3600);
    vstd::arithmetic::div_mod::lemma_fundamental_div_mod(rem % 3600, 60);
    let h = rem / 3600;
    assert(h <= 23) by {
        if h >= 24 {
            assert(3600 * h >= 3600 * 24);
        }
    }
}

/// Weekday, as exec code computes it, of an absolute day number.
pub fn weekday_of(n: u64) -> (r: u64)
    ensures r as int == weekday_of_day(n as int), r <= 6,
{
    n % 7
}

pub fn leap_year(y: u64) -> (r: bool)
    ensures r == is_leap_year(y as int),
{
    y % 4 == 0 && (y % 100 != 0 || y % 400 == 0)
}

pub fn month_length(y: u64, m: u64) -> (r: u64)
    requires 1 <= m <= 12,
    ensures r as int == days_in_month(y as int, m as int), 28 <= r <= 31,
{
    if m == 2 {
        if leap_year(y) { 29 } else { 28 }
    } else if m == 4 || m == 6 || m == 9 || m == 11 {
        30
    } else {
        31
    }
}

/// Absolute day number of the first of January of year `y`.
pub fn year_start_day(y: u64) -> (r: u64)
    requires y <= 10000,
    ensures r as int == days_before_year(y as int), r <= 3652425,
{
    proof {
        vstd::arithmetic::div_mod::lemma_div_pos_is_pos(y as int + 3, 4);
        vstd::arithmetic::div_mod::lemma_div_pos_is_pos(y as int + 399, 400);
        vstd::arithmetic::div_mod::lemma_div_nonincreasing(y as int + 99, 100);
        vstd::arithmetic::div_mod::lemma_div_nonincreasing(y as int + 3, 4);
        vstd::arithmetic::div_mod::lemma_div_nonincreasing(y as int + 399, 400);
        if y == 0 {
            assert(days_before_year(0) == 0);
        }
        lemma_days_before_year_mono(y as int, 10000);
        assert(days_before_year(10000) == 3652425);
    }
    365 * y + (y + 3) / 4 - (y + 99) / 100 + (y + 399) / 400
}

/// Day-of-year (0-based) of the first of month `m` in year `y`.
pub fn month_start_in_year(y: u64, m: u64) -> (r: u64)
    requires 1 <= m <= 13,
    ensures r as int == days_before_month(y as int, m as int), r <= 366,
{
    let mut i: u64 = 1;
    let mut acc: u64 = 0;
    while i < m
        invariant
            1 <= i <= m <= 13,
            acc as int == days_before_month(y as int, i as int),
            acc as int + 31 * (13 - i as int) <= 403,
        decreases m - i,
    {
        acc = acc + month_length(y, i);
        i = i + 1;
    }
    proof {
        lemma_months_fill_year(y as int);
        lemma_days_before_month_mono(y as int, m as int, 13);
    }
    acc
}

/// Split an absolute day number into its year and 0-based day-of-year.
pub fn split_year(n: u64) -> (r: (u64, u64))
    requires n < 3652425,
    ensures
        r.0 as int == year_of_day(n as int),
        r.0 <= 9999,
        days_before_year(r.0 as int) + r.1 as int == n as int,
        (r.1 as int) < days_in_year(r.0 as int),
{
    let mut y: u64 = 0;
    loop
        invariant
            y <= 9999,
            n < 3652425,
            days_before_year(y as int) <= n as int,
            year_of_day(n as int) == year_lookup(n as int, y as int),
        decreases 10000 - y,
    {
        let next = year_start_day(y + 1);
        if n < next {
            proof { lemma_year_step(y as int); }
            return (y, n - year_start_day(y));
        }
        proof {
            if y == 9999 {
                assert(days_before_year(10000) == 3652425);
                assert(false);
            }
        }
        y = y + 1;
    }
}

/// Split a 0-based day-of-year into its month and 0-based day-of-month.
pub fn split_month(y: u64, d: u64) -> (r: (u64, u64))
    requires (d as int) < days_in_year(y as int),
    ensures
        r.0 as int == month_of_year_day(y as int, d as int),
        1 <= r.0 <= 12,
        days_before_month(y as int, r.0 as int) + r.1 as int == d as int,
        (r.1 as int) < days_in_month(y as int, r.0 as int),
{
    let mut m: u64 = 1;
    let mut acc: u64 = 0;
    loop
        invariant
            1 <= m <= 12,
            d < 366,
            acc as int == days_before_month(y as int, m as int),
            acc <= d,
            (d as int) < days_in_year(y as int),
            month_of_year_day(y as int, d as int) == month_lookup(y as int, d as int, m as int),
        decreases 12 - m,
    {
        let len = month_length(y, m);
        if d < acc + len {
            return (m, d - acc);
        }
        proof {
            if m == 12 {
                lemma_months_fill_year(y as int);
                assert(false);
            }
        }
        acc = acc + len;
        m = m + 1;
    }
}

/// A wall-clock reading of an instant, with its weekday.
pub struct Civil {
    pub year: u64,
    pub month: u64,
    pub day: u64,
    pub hour: u64,
    pub minute: u64,
    pub second: u64,
    pub weekday: u64,
}

/// The UTC wall-clock reading of an in-range instant.
pub fn civil_of_unix(ts: i64) -> (r: Civil)
    requires ts_in_range(ts as int),
    ensures
        r.year as int == year_of_ts(ts as int),
        r.month as int == month_of_ts(ts as int),
        r.day as int == dom_of_ts(ts as int),
        r.hour as int == hour_of_ts(ts as int),
        r.minute as int == minute_of_ts(ts as int),
        r.second as int == second_of_ts(ts as int),
        r.weekday as int == weekday_of_day(day_of_ts(ts as int)),
        r.weekday <= 6,
        valid_date(r.year as int, r.month as int, r.day as int),
        valid_time(r.hour as int, r.minute as int, r.second as int),
{
    proof { lemma_ts_fields(ts as int); }
    let total: u64 = (ts + SECS_FROM_YEAR_0_TO_EPOCH) as u64;
    let days: u64 = total / 86400;
    let rem: u64 = total % 86400;
    proof {
        vstd::arithmetic::div_mod::lemma_fundamental_div_mod(total as int, 86400);
        assert(days < 3652425) by {
            if days as int >= 3652425 {
                assert(86400 * (days as int) >= 86400 * 3652425);
            }
        }
    }
    let (y, yd) = split_year(days);
    let (m, d0) = split_month(y, yd);
    let wd = weekday_of(days);
    let h = rem / 3600;
    let rem2 = rem % 3600;
    Civil {
        year: y,
        month: m,
        day: d0 + 1,
        hour: h,
        minute: rem2 / 60,
        second: rem2 % 60,
        weekday: wd,
    }
}

/// Absolute day number of a valid civil date.
pub fn day_number_of(y: u64, m: u64, d: u64) -> (r: u64)
    requires valid_date(y as int, m as int, d as int),
    ensures r as int == day_number(y as int, m as int, d as int), r < 3652425,
{
    proof {
        lemma_days_before_month_mono(y as int, m as int + 1, 13);
        lemma_months_fill_year(y as int);
        lemma_year_step(y as int);
        lemma_days_before_year_mono(y as int + 1, 10000);
        assert(days_before_year(10000) == 3652425);
        assert(days_before_month(y as int, m as int + 1)
            == days_before_month(y as int, m as int) + days_in_month(y as int, m as int));
    }
    year_start_day(y) + month_start_in_year(y, m) + (d - 1)
}

/// The instant of a valid UTC wall-clock reading.
pub fn unix_of_civil(y: u64, m: u64, d: u64, h: u64, mi: u64, s: u64) -> (r: i64)
    requires
        valid_date(y as int, m as int, d as int),
        valid_time(h as int, mi as int, s as int),
    ensures
        r as int == unix_seconds_of(y as int, m as int, d as int, h as int, mi as int, s as int),
        ts_in_range(r as int),
        day_of_ts(r as int) == day_number(y as int, m as int, d as int),
        secs_of_ts(r as int) == h * 3600 + mi * 60 + s,
{
    let dn: u64 = day_number_of(y, m, d);
    let total: u64 = dn * 86400 + h * 3600 + mi * 60 + s;
    proof {
        vstd::arithmetic::div_mod::lemma_fundamental_div_mod_converse(
            total as int, 86400, dn as int, (h * 3600 + mi * 60 + s) as int);
    }
    (total as i64) - SECS_FROM_YEAR_0_TO_EPOCH
}

} // verus!
