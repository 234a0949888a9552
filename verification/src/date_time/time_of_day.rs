//! Dates and times of day as plain values, and a time of day as the number
//! of seconds since midnight.

use vstd::prelude::*;

verus! {

/// A day of the calendar.
#[derive(Clone, Copy, Debug, PartialEq, Eq, Hash, Structural)]
pub struct Date {
    pub year: i32,
    pub month: u32,
    pub day: u32,
}

/// A time of day.
#[derive(Clone, Copy, Debug, PartialEq, Eq, Hash, Structural)]
pub struct Time {
    pub hour: u32,
    pub minute: u32,
    pub second: u32,
    pub nanosecond: u32,
}

impl Date {
    /// The day `day` of month `month` of year `year`.
    pub fn new(year: i32, month: u32, day: u32) -> (date: Date)
        ensures
            date == (Date { year, month, day }),
    {
        Date { year, month, day }
    }
}

impl Time {
    /// The hour, the minute and the second are those of a clock.
    pub open spec fn wf(self) -> bool {
        self.hour < 24 && self.minute < 60 && self.second < 60
    }

    /// The seconds from midnight to this time.
    pub open spec fn seconds(self) -> int {
        self.hour * 3600 + self.minute * 60 + self.second
    }

    /// Midnight.
    pub open spec fn spec_midnight() -> Time {
        Time { hour: 0, minute: 0, second: 0, nanosecond: 0 }
    }

    /// Midnight.
    #[verifier::when_used_as_spec(spec_midnight)]
    pub fn midnight() -> (time: Time)
        ensures
            time == Self::spec_midnight(),
    {
        Time { hour: 0, minute: 0, second: 0, nanosecond: 0 }
    }

    /// The time at `hour`, `minute` and `second` on the clock, or `None`
    /// where a clock shows no such time.
    pub fn from_hms_opt(hour: u32, minute: u32, second: u32) -> (r: Option<Time>)
        ensures
            r == if hour < 24 && minute < 60 && second < 60 {
                Some(Time { hour, minute, second, nanosecond: 0 })
            } else {
                None::<Time>
            },
    {
        if hour < 24 && minute < 60 && second < 60 {
            Some(Time { hour, minute, second, nanosecond: 0 })
        } else {
            None
        }
    }

    /// Whether the hour, the minute and the second are those of a clock.
    pub fn is_valid(&self) -> (r: bool)
        ensures
            r == self.wf(),
    {
        self.hour < 24 && self.minute < 60 && self.second < 60
    }
}

/// The time of day that lies `seconds` seconds after midnight, if that is a
/// time of the same day.
pub open spec fn time_at(seconds: int) -> Option<Time> {
    if 0 <= seconds < 86400 {
        Some(
            Time {
                hour: (seconds / 3600) as u32,
                minute: (seconds % 3600 / 60) as u32,
                second: (seconds % 60) as u32,
                nanosecond: 0,
            },
        )
    } else {
        None
    }
}

/// The seconds from midnight to `time`, without the fraction of a second.
pub fn naive_time_to_i32(time: Time) -> (r: i32)
    requires
        time.wf(),
    ensures
        r == time.seconds(),
        0 <= r < 86400,
{
    (time.hour * 3600 + time.minute * 60 + time.second) as i32
}

/// The time of day that lies `time` seconds after midnight, or `None` where
/// that is before midnight or not before the next one.
pub fn i32_to_naive_time(time: i32) -> (r: Option<Time>)
    ensures
        r == time_at(time as int),
        r is Some ==> r->0.wf(),
{
    if time < 0 || time >= 86400 {
        return None;
    }
    let hours = time / 3600;
    let minutes = (time % 3600) / 60;
    let seconds = time % 60;
    Time::from_hms_opt(hours as u32, minutes as u32, seconds as u32)
}

/// Counting the seconds of a time of day and going back to the time of day
/// gives the same time, but for its fraction of a second.
pub proof fn lemma_time_to_seconds_and_back(time: Time)
    requires
        time.wf(),
    ensures
        time_at(time.seconds()) == Some(Time { nanosecond: 0, ..time }),
{
    let n = time.seconds();
    let rest = time.minute * 60 + time.second;
    assert(n == time.hour * 3600 + rest);
    vstd::arithmetic::div_mod::lemma_fundamental_div_mod_converse(
        n,
        3600,
        time.hour as int,
        rest as int,
    );
    vstd::arithmetic::div_mod::lemma_fundamental_div_mod_converse(
        rest as int,
        60,
        time.minute as int,
        time.second as int,
    );
    vstd::arithmetic::div_mod::lemma_fundamental_div_mod_converse(
        n,
        60,
        time.hour * 60 + time.minute,
        time.second as int,
    );
}

/// Going from a number of seconds to the time of day and counting its
/// seconds gives the same number.
pub proof fn lemma_seconds_to_time_and_back(seconds: int)
    requires
        0 <= seconds < 86400,
    ensures
        time_at(seconds)->0.wf(),
        time_at(seconds)->0.seconds() == seconds,
{
}

} // verus!
