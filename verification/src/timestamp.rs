//! Points in time: what an RFC 3339 text says, and how long ago that was.

use chrono::{Datelike, Timelike};
use vstd::prelude::*;

verus! {

/// A point in time, counted from the Unix epoch (1970-01-01 00:00:00 UTC):
/// whole seconds, which are negative before the epoch, and the nanoseconds
/// that follow them.
#[derive(Debug, Clone, Copy, PartialEq, Eq, Structural)]
pub struct Instant {
    pub seconds: i64,
    pub nanos: u32,
}

impl Instant {
    /// The nanoseconds between the epoch and this point.
    pub open spec fn total_nanos(self) -> int {
        self.seconds * 1_000_000_000 + self.nanos
    }
}

/// What the tables read from a timestamp: the point in time, and the day,
/// month, hour and minute of its date and time in UTC.
#[derive(Debug, Clone, Copy, PartialEq, Eq, Structural)]
pub struct Timestamp {
    pub instant: Instant,
    pub day: u32,
    pub month: u32,
    pub hour: u32,
    pub minute: u32,
}

/// What `chrono` reads from a text as an RFC 3339 date and time, or `None`
/// where it takes the text for none.
pub uninterp spec fn rfc3339_timestamp(text: Seq<char>) -> Option<Timestamp>;

/// Parses `text` with `chrono::DateTime::parse_from_rfc3339`.
///
/// Not proved: that the result is `rfc3339_timestamp` of the text, that is,
/// that it depends on the text alone. On success the fields are what chrono
/// reports of the parsed value: `timestamp` and `timestamp_subsec_nanos` for
/// the instant, and the day, month, hour and minute of `naive_utc`.
#[verifier::external_body]
fn parse_rfc3339(text: &str) -> (parsed: Option<Timestamp>)
    ensures
        parsed == rfc3339_timestamp(text@),
{
    match chrono::DateTime::parse_from_rfc3339(text) {
        Ok(moment) => {
            let utc = moment.naive_utc();
            let instant =
                Instant { seconds: moment.timestamp(), nanos: moment.timestamp_subsec_nanos() };
            let (day, month, hour, minute) = (utc.day(), utc.month(), utc.hour(), utc.minute());
            Some(Timestamp { instant, day, month, hour, minute })
        },
        Err(_) => None,
    }
}

/// Why a timestamp could not be used.
#[derive(Debug, Clone, Copy, PartialEq, Eq, Structural)]
pub enum TimeError {
    /// The text is no RFC 3339 date and time.
    Unparsable,
    /// The timestamp lies after the moment it is compared with.
    InFuture,
    /// The timestamp lies further back than a time span can express.
    TooLongAgo,
}

/// The longest time span that can be expressed, in nanoseconds: `i64::MAX`
/// milliseconds.
pub open spec fn longest_span_nanos() -> int {
    9_223_372_036_854_775_807int * 1_000_000
}

/// The whole seconds from `then` to `now`.
pub open spec fn elapsed_seconds(now: Instant, then: Instant) -> Result<int, TimeError> {
    let span = now.total_nanos() - then.total_nanos();
    if span < 0 {
        Err(TimeError::InFuture)
    } else if span > longest_span_nanos() {
        Err(TimeError::TooLongAgo)
    } else {
        Ok(span / 1_000_000_000)
    }
}

/// Reads an RFC 3339 date and time.
pub fn read_timestamp(text: &str) -> (read: Result<Timestamp, TimeError>)
    ensures
        read == match rfc3339_timestamp(text@) {
            Some(stamp) => Ok::<Timestamp, TimeError>(stamp),
            None => Err(TimeError::Unparsable),
        },
{
    match parse_rfc3339(text) {
        Some(stamp) => Ok(stamp),
        None => Err(TimeError::Unparsable),
    }
}

/// Measures the whole seconds that passed from `then` to `now`. Fails when
/// `then` is the later of the two, or further back than a time span can
/// express.
pub fn seconds_since(now: Instant, then: Instant) -> (elapsed: Result<u64, TimeError>)
    ensures
        match elapsed {
            Ok(seconds) => elapsed_seconds(now, then) == Ok::<int, TimeError>(seconds as int),
            Err(error) => elapsed_seconds(now, then) == Err::<int, TimeError>(error),
        },
{
    let later: i128 = (now.seconds as i128) * 1_000_000_000 + (now.nanos as i128);
    let earlier: i128 = (then.seconds as i128) * 1_000_000_000 + (then.nanos as i128);
    let span: i128 = later - earlier;
    let longest: i128 = 9_223_372_036_854_775_807 * 1_000_000;
    if span < 0 {
        Err(TimeError::InFuture)
    } else if span > longest {
        Err(TimeError::TooLongAgo)
    } else {
        Ok((span / 1_000_000_000) as u64)
    }
}

} // verus!
