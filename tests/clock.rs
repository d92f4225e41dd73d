use omiga::clock::{millis_from_seconds, now_utc, timestamp_millis_utc, timestamp_seconds_utc};
use omiga::value::{Date, DateTime, Time};

#[test]
fn test_clock_datetime_utc() {
    // 2024-07-21 00:00:00 GMT+08:00
    let base = 1721491200000i64;
    let now = now_utc().unwrap();
    let now_millis = timestamp_millis_utc(&now);
    assert!(now_millis > base)
}

#[test]
fn test_clock_datetime_2_timestamp_millis_utc() {
    let base = 1721491200000i64;
    let now = now_utc().unwrap();
    let now_millis = timestamp_millis_utc(&now);
    assert!(now_millis > base);
}

#[test]
fn test_clock_datetime_2_timestamp_seconds_utc() {
    let base = 1721491200000i64;
    let now = now_utc().unwrap();
    let now_millis = timestamp_seconds_utc(&now);
    assert!(now_millis > (base / 1_000))
}

#[test]
fn utc_timestamp_of_a_known_day() {
    let dt = DateTime {
        date: Some(Date { year: 2024, month: 7, day: 21 }),
        time: Time { hour: 0, minute: 0, second: 0, nanosecond: 5_000_000 },
    };
    assert_eq!(timestamp_seconds_utc(&dt), 1_721_520_000);
    assert_eq!(timestamp_millis_utc(&dt), 1_721_520_000_005);
    let epoch = DateTime {
        date: Some(Date { year: 1970, month: 1, day: 1 }),
        time: Time { hour: 0, minute: 0, second: 1, nanosecond: 0 },
    };
    assert_eq!(timestamp_seconds_utc(&epoch), 1);
}

#[test]
fn millis_from_seconds_bounds() {
    assert_eq!(millis_from_seconds(2, 345_678_901), Some(2345));
    assert_eq!(millis_from_seconds(-1, 0), Some(-1000));
    assert_eq!(millis_from_seconds(i64::MAX, 0), None);
    assert_eq!(millis_from_seconds(i64::MAX / 1000, 999_999_999), None);
}
