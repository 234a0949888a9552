//! Dates as UNIX timestamps: the seconds since the start of 1970 in UTC,
//! without leap seconds.

use vstd::prelude::*;
use chrono::Datelike;
use crate::date_time::time_of_day::{Date, Time};

verus! {

/// The UNIX timestamp of `time` on `date` in UTC, as chrono counts it;
/// `None` where chrono knows no such date or no such time of day.
pub uninterp spec fn unix_timestamp(date: Date, time: Time) -> Option<i64>;

/// The date in UTC on which the UNIX timestamp `timestamp` falls, as chrono
/// counts it; `None` where the timestamp lies beyond the dates that chrono
/// knows.
pub uninterp spec fn unix_date(timestamp: i64) -> Option<Date>;

/// `chrono::DateTime::<Utc>::timestamp`, of the date and time that
/// `NaiveDate::from_ymd_opt` and `NaiveTime::from_hms_nano_opt` make of the
/// given values. `None` where either of them makes none. The outcome depends
/// on the given values alone.
#[verifier::external_body]
fn timestamp_of(date: Date, time: Time) -> (r: Option<i64>)
    ensures
        r == unix_timestamp(date, time),
{
    let day = chrono::NaiveDate::from_ymd_opt(date.year, date.month, date.day)?;
    let clock =
        chrono::NaiveTime::from_hms_nano_opt(time.hour, time.minute, time.second, time.nanosecond)?;
    Some(chrono::NaiveDateTime::new(day, clock).and_utc().timestamp())
}

/// `chrono::DateTime::from_timestamp` with no nanoseconds, and of its
/// outcome the date, `DateTime::date_naive`, given by its year, month and
/// day. `None` where `from_timestamp` gives none. The outcome depends on the
/// timestamp alone.
#[verifier::external_body]
fn date_of_timestamp(timestamp: i64) -> (r: Option<Date>)
    ensures
        r == unix_date(timestamp),
{
    let day = chrono::DateTime::from_timestamp(timestamp, 0)?.date_naive();
    Some(Date { year: day.year(), month: day.month(), day: day.day() })
}

/// The UNIX timestamp of `time` on `date`, or `None` where the calendar has
/// no such date or the clock no such time.
pub fn naive_date_time_to_i64(date: Date, time: Time) -> (r: Option<i64>)
    ensures
        r == unix_timestamp(date, time),
{
    timestamp_of(date, time)
}

/// The UNIX timestamp of midnight at the start of `date`, or `None` where
/// the calendar has no such date.
pub fn naive_date_to_i64(date: Date) -> (r: Option<i64>)
    ensures
        r == unix_timestamp(date, Time::midnight()),
{
    timestamp_of(date, Time::midnight())
}

/// The date on which the UNIX timestamp `timestamp` falls, or `None` where
/// it lies beyond the calendar.
pub fn i64_to_naive_date(timestamp: i64) -> (r: Option<Date>)
    ensures
        r == unix_date(timestamp),
{
    date_of_timestamp(timestamp)
}

} // verus!
