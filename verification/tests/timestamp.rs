use hcwatch::timestamp::{read_timestamp, seconds_since, Instant, TimeError, Timestamp};

fn at(seconds: i64, nanos: u32) -> Instant {
    Instant { seconds, nanos }
}

#[test]
fn read_timestamp_reports_the_instant_and_the_utc_fields() {
    let stamp = read_timestamp("1996-12-19T16:39:57-08:00").unwrap();
    assert_eq!(
        stamp,
        Timestamp { instant: at(851_042_397, 0), day: 20, month: 12, hour: 0, minute: 39 }
    );
}

#[test]
fn read_timestamp_keeps_the_fraction_of_a_second() {
    let stamp = read_timestamp("2023-11-14T22:13:20.250Z").unwrap();
    assert_eq!(
        stamp,
        Timestamp { instant: at(1_700_000_000, 250_000_000), day: 14, month: 11, hour: 22, minute: 13 }
    );
}

#[test]
fn read_timestamp_before_the_epoch() {
    let stamp = read_timestamp("1969-12-31T23:59:59+00:00").unwrap();
    assert_eq!(stamp, Timestamp { instant: at(-1, 0), day: 31, month: 12, hour: 23, minute: 59 });
}

#[test]
fn read_timestamp_turns_down_other_text() {
    assert_eq!(read_timestamp(""), Err(TimeError::Unparsable));
    assert_eq!(read_timestamp("yesterday"), Err(TimeError::Unparsable));
    assert_eq!(read_timestamp("2023-11-14 22:13:20"), Err(TimeError::Unparsable));
    assert_eq!(read_timestamp("2023-13-14T22:13:20Z"), Err(TimeError::Unparsable));
}

#[test]
fn seconds_since_counts_whole_seconds() {
    assert_eq!(seconds_since(at(100, 0), at(40, 0)), Ok(60));
    assert_eq!(seconds_since(at(100, 0), at(100, 0)), Ok(0));
    assert_eq!(seconds_since(at(100, 999_999_999), at(100, 0)), Ok(0));
    assert_eq!(seconds_since(at(101, 0), at(100, 1)), Ok(0));
    assert_eq!(seconds_since(at(101, 1), at(100, 1)), Ok(1));
    assert_eq!(seconds_since(at(5, 0), at(-5, 500_000_000)), Ok(9));
}

#[test]
fn seconds_since_takes_a_leap_second_fraction() {
    // A leap second is written as nanoseconds past a full second.
    assert_eq!(seconds_since(at(102, 0), at(100, 1_500_000_000)), Ok(0));
    assert_eq!(seconds_since(at(102, 500_000_000), at(100, 1_500_000_000)), Ok(1));
}

#[test]
fn seconds_since_fails_for_a_later_timestamp() {
    assert_eq!(seconds_since(at(100, 0), at(100, 1)), Err(TimeError::InFuture));
    assert_eq!(seconds_since(at(0, 0), at(1, 0)), Err(TimeError::InFuture));
}

#[test]
fn seconds_since_fails_beyond_the_longest_span() {
    let limit: i64 = i64::MAX / 1000;
    assert_eq!(seconds_since(at(limit, 807_000_000), at(0, 0)), Ok(limit as u64));
    assert_eq!(seconds_since(at(limit, 807_000_001), at(0, 0)), Err(TimeError::TooLongAgo));
    assert_eq!(seconds_since(at(i64::MAX, 0), at(i64::MIN, 0)), Err(TimeError::TooLongAgo));
}
