//! Dates as text, as the feeds and the reports write them.
use crate::types::Timestamp;
use vstd::prelude::*;

verus! {

/// The text of an instant under a pattern, by `chrono`: of the date and time
/// in UTC that are `secs` seconds and `nanos` nanoseconds after the Unix
/// epoch. There is none for an instant that `chrono` cannot represent.
pub uninterp spec fn utc_text(secs: i64, nanos: u32, pattern: Seq<char>) -> Option<Seq<char>>;

/// The seconds from the Unix epoch to midnight, UTC, of the day that a text
/// stands for, as `chrono` reads it under the pattern `%Y-%m-%d`. There are
/// none for a text that is no date.
pub uninterp spec fn utc_midnight(text: Seq<char>) -> Option<i64>;

/// The pattern is one of the two that the library writes: a date, or a date
/// and a time of day.
pub open spec fn known_pattern(pattern: Seq<char>) -> bool {
    pattern == "%Y-%m-%d"@ || pattern == "%Y-%m-%d %H:%M:%S"@
}

/// `chrono::DateTime::from_timestamp`, then `DateTime::format` with one of
/// the two patterns, written to a string. The contract only names the
/// result: the same instant and pattern give the same text.
#[verifier::external_body]
fn format_utc(secs: i64, nanos: u32, pattern: &str) -> (text: Option<String>)
    requires
        known_pattern(pattern@),
    ensures
        match text {
            Some(written) => utc_text(secs, nanos, pattern@) == Some(written@),
            None => utc_text(secs, nanos, pattern@) is None,
        },
{
    match chrono::DateTime::from_timestamp(secs, nanos) {
        Some(at) => Some(at.format(pattern).to_string()),
        None => None,
    }
}

/// `chrono::NaiveDate::parse_from_str` with the pattern `%Y-%m-%d`, and the
/// timestamp of midnight, UTC, of the date it gives. The contract only names
/// the result: the same text gives the same date.
#[verifier::external_body]
fn parse_utc_date(text: &str) -> (secs: Option<i64>)
    ensures
        secs == utc_midnight(text@),
{
    match chrono::NaiveDate::parse_from_str(text, "%Y-%m-%d") {
        Ok(date) => match date.and_hms_opt(0, 0, 0) {
            Some(midnight) => Some(midnight.and_utc().timestamp()),
            None => None,
        },
        Err(_) => None,
    }
}

/// The instant as a date and a time of day, like `2015-05-15 00:00:00`.
pub fn format_datetime(at: Timestamp) -> (text: Option<String>)
    ensures
        match text {
            Some(written) => utc_text(at.secs, at.nanos, "%Y-%m-%d %H:%M:%S"@) == Some(written@),
            None => utc_text(at.secs, at.nanos, "%Y-%m-%d %H:%M:%S"@) is None,
        },
{
    format_utc(at.secs, at.nanos, "%Y-%m-%d %H:%M:%S")
}

/// The day of the instant, like `2015-05-15`.
pub fn format_date(at: Timestamp) -> (text: Option<String>)
    ensures
        match text {
            Some(written) => utc_text(at.secs, at.nanos, "%Y-%m-%d"@) == Some(written@),
            None => utc_text(at.secs, at.nanos, "%Y-%m-%d"@) is None,
        },
{
    format_utc(at.secs, at.nanos, "%Y-%m-%d")
}

/// Midnight, UTC, of the day that the text stands for, if it is a date like
/// `2015-05-15`.
pub fn parse_date(text: &str) -> (at: Option<Timestamp>)
    ensures
        at == midnight_of(utc_midnight(text@)),
{
    midnight_at(parse_utc_date(text))
}

/// The instant that many seconds after the epoch, where there is one.
pub fn midnight_at(secs: Option<i64>) -> (at: Option<Timestamp>)
    ensures
        at == midnight_of(secs),
{
    match secs {
        Some(secs) => Some(Timestamp { secs, nanos: 0 }),
        None => None,
    }
}

/// The instant that many seconds after the epoch, where there is one.
pub open spec fn midnight_of(secs: Option<i64>) -> Option<Timestamp> {
    match secs {
        Some(secs) => Some(Timestamp { secs, nanos: 0 }),
        None => None,
    }
}

/// The time of a tick as a feed may write it: as the number of seconds since
/// the Unix epoch, or as the text of a date.
#[derive(Debug, Clone, PartialEq, Eq)]
pub enum DatetimeField {
    Number(u64),
    String(String),
}

/// The instant that a field stands for, given what its text reads as if it
/// is one: a number stands for that many seconds after the epoch, unless it
/// is beyond the seconds that a timestamp counts; a text stands for midnight
/// of its date.
pub open spec fn field_instant(number: Option<u64>, midnight: Option<i64>) -> Option<Timestamp> {
    match number {
        Some(secs) => if secs <= i64::MAX {
            Some(Timestamp { secs: secs as i64, nanos: 0 })
        } else {
            None
        },
        None => midnight_of(midnight),
    }
}

impl DatetimeField {
    /// The instant that the field stands for, if it stands for one.
    pub fn timestamp(&self) -> (at: Option<Timestamp>)
        ensures
            at == match self {
                DatetimeField::Number(secs) => field_instant(Some(*secs), None),
                DatetimeField::String(text) => field_instant(None, utc_midnight(text@)),
            },
    {
        match self {
            DatetimeField::Number(secs) => {
                if *secs <= i64::MAX as u64 {
                    Some(Timestamp { secs: *secs as i64, nanos: 0 })
                } else {
                    None
                }
            },
            DatetimeField::String(text) => parse_date(text.as_str()),
        }
    }
}

} // verus!
