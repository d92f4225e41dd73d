//! The calendar clock in UTC, by the `chrono` crate: the current date-time,
//! and timestamps of a date-time.

use vstd::prelude::*;
use chrono::{Datelike, Timelike};
use crate::value::{Date, DateTime, Time};

verus! {

pub open spec fn is_leap_year(y: int) -> bool {
    (y % 4 == 0 && y % 100 != 0) || y % 400 == 0
}

pub open spec fn days_in_month(y: int, m: int) -> int {
    if m == 2 {
        if is_leap_year(y) {
            29
        } else {
            28
        }
    } else if m == 4 || m == 6 || m == 9 || m == 11 {
        30
    } else {
        31
    }
}

/// A date-time that `chrono` can hold: a date in its year range, a real
/// calendar day, and a time of day (a leap second only at second 59).
pub open spec fn valid_datetime(dt: DateTime) -> bool {
    match dt.date {
        Some(d) => {
            &&& -262143 <= d.year <= 262142
            &&& 1 <= d.month <= 12
            &&& 1 <= d.day <= days_in_month(d.year as int, d.month as int)
            &&& dt.time.hour < 24
            &&& dt.time.minute < 60
            &&& dt.time.second < 60
            &&& (dt.time.nanosecond < 1_000_000_000 || (dt.time.second == 59 && dt.time.nanosecond
                < 2_000_000_000))
        },
        None => false,
    }
}

/// Days from 1970-01-01 to the given day of the proleptic Gregorian calendar.
pub open spec fn days_from_civil(y: int, m: int, d: int) -> int {
    let y1 = if m <= 2 {
        y - 1
    } else {
        y
    };
    let era = y1 / 400;
    let yoe = y1 - era * 400;
    let mp = if m > 2 {
        m - 3
    } else {
        m + 9
    };
    let doy = (153 * mp + 2) / 5 + d - 1;
    let doe = yoe * 365 + yoe / 4 - yoe / 100 + doy;
    era * 146097 + doe - 719468
}

/// Seconds from the epoch to a date-time read as UTC (leap seconds not counted).
pub open spec fn utc_seconds(dt: DateTime) -> int {
    match dt.date {
        Some(d) => days_from_civil(d.year as int, d.month as int, d.day as int) * 86400 + dt.time.hour * 3600
            + dt.time.minute * 60 + dt.time.second,
        None => 0,
    }
}

/// Relies on `SystemTime::now().duration_since(UNIX_EPOCH)` and
/// `chrono::DateTime::from_timestamp`: the current UTC date-time; none when
/// the clock reads before the epoch or past chrono's last year. chrono only
/// ever holds a valid date and time, with nanoseconds under a second here.
#[verifier::external_body]
pub fn now_utc() -> (r: Option<DateTime>)
    ensures
        r matches Some(d) ==> valid_datetime(d),
{
    let since = std::time::SystemTime::now().duration_since(std::time::UNIX_EPOCH).ok()?;
    let seconds = i64::try_from(since.as_secs()).ok()?;
    let dt = chrono::DateTime::from_timestamp(seconds, since.subsec_nanos())?.naive_utc();
    Some(DateTime {
        date: Some(Date { year: dt.year(), month: dt.month(), day: dt.day() }),
        time: Time { hour: dt.hour(), minute: dt.minute(), second: dt.second(), nanosecond: dt.nanosecond() },
    })
}

/// Milliseconds from seconds and the nanoseconds past them; none where the
/// milliseconds of the whole seconds, or the sum, do not fit an `i64`.
pub fn millis_from_seconds(seconds: i64, nanosecond: u32) -> (r: Option<i64>)
    ensures
        ({
            let whole = seconds * 1000;
            let m = whole + nanosecond / 1_000_000;
            if i64::MIN <= whole <= i64::MAX && i64::MIN <= m <= i64::MAX {
                r == Some(m as i64)
            } else {
                r is None
            }
        }),
{
    let extra = (nanosecond / 1_000_000) as i64;
    match seconds.checked_mul(1000) {
        Some(whole) => whole.checked_add(extra),
        None => None,
    }
}

/// Relies on `chrono::NaiveDate::from_ymd_opt`, `and_hms_nano_opt`, `and_utc`
/// and `DateTime::timestamp`: seconds from the epoch, reading `dt` as UTC.
#[verifier::external_body]
pub fn timestamp_seconds_utc(dt: &DateTime) -> (r: i64)
    requires
        valid_datetime(*dt),
    ensures
        r == utc_seconds(*dt),
{
    let d = dt.date.unwrap();
    let t = dt.time;
    let naive = chrono::NaiveDate::from_ymd_opt(d.year, d.month, d.day).unwrap();
    naive.and_hms_nano_opt(t.hour, t.minute, t.second, t.nanosecond).unwrap().and_utc().timestamp()
}

/// Milliseconds from the epoch, reading `dt` as UTC.
pub fn timestamp_millis_utc(dt: &DateTime) -> (r: i64)
    requires
        valid_datetime(*dt),
    ensures
        r == utc_seconds(*dt) * 1000 + dt.time.nanosecond / 1_000_000,
{
    let seconds = timestamp_seconds_utc(dt);
    proof {
        let d = dt.date->Some_0;
        assert(-262143 <= d.year <= 262142);
        assert(utc_seconds(*dt) * 1000 < 0x7fff_ffff_0000_0000) by (nonlinear_arith)
            requires
                -262143 <= d.year <= 262142,
                1 <= d.month <= 12,
                1 <= d.day <= 31,
                dt.time.hour < 24,
                dt.time.minute < 60,
                dt.time.second < 60,
                utc_seconds(*dt) == days_from_civil(d.year as int, d.month as int, d.day as int) * 86400
                    + dt.time.hour * 3600 + dt.time.minute * 60 + dt.time.second,
        ;
    }
    seconds * 1000 + (dt.time.nanosecond / 1_000_000) as i64
}

} // verus!
