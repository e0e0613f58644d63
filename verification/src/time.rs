//! Time as the status report shows it: the time of day, and the uptime
//! broken down into days, hours and minutes.

use chrono::{DateTime, Timelike};
use vstd::arithmetic::div_mod::{lemma_breakdown, lemma_fundamental_div_mod, lemma_mod_mod};
use vstd::prelude::*;

verus! {

/// Seconds in a day.
pub const SECONDS_PER_DAY: u64 = 86400;

/// Seconds in an hour.
pub const SECONDS_PER_HOUR: u64 = 3600;

/// Seconds in a minute.
pub const SECONDS_PER_MINUTE: u64 = 60;

/// The last timestamp of the year 9999.
pub const LAST_TIMESTAMP: i64 = 253_402_300_799;

/// A time of day, in UTC.
#[derive(Debug, Clone, Copy, PartialEq, Eq)]
pub struct Clock {
    /// The hour, from 0 to 23.
    pub hour: u32,
    /// The minute, from 0 to 59.
    pub minute: u32,
    /// The second, from 0 to 59.
    pub second: u32,
}

impl Clock {
    /// The time of day at `timestamp` seconds from the start of 1970, in
    /// UTC.
    pub open spec fn at(timestamp: int) -> Clock {
        let of_day = timestamp % 86400;
        Clock {
            hour: (of_day / 3600) as u32,
            minute: ((of_day / 60) % 60) as u32,
            second: (of_day % 60) as u32,
        }
    }

    /// An hour below 24, a minute and a second below 60.
    pub open spec fn valid(&self) -> bool {
        self.hour < 24 && self.minute < 60 && self.second < 60
    }

    /// The time of day at `timestamp` seconds from the start of 1970, in
    /// UTC. Every timestamp from 1970 to the end of the year 9999 has one.
    pub fn from_timestamp(timestamp: i64) -> (clock: Option<Clock>)
        ensures
            0 <= timestamp <= LAST_TIMESTAMP ==> clock is Some,
            clock matches Some(c) ==> c == Clock::at(timestamp as int) && c.valid(),
    {
        match utc_time_of_day(timestamp) {
            Some((hour, minute, second)) => Some(Clock { hour, minute, second }),
            None => None,
        }
    }
}

/// `chrono::DateTime::from_timestamp`, read with `Timelike::hour`, `minute`
/// and `second`: the time of day splits the seconds since midnight, which
/// are the timestamp modulo the seconds of a day. Timestamps from 1970 to
/// the end of the year 9999 are within the range that chrono's dates cover.
#[verifier::external_body]
fn utc_time_of_day(timestamp: i64) -> (hms: Option<(u32, u32, u32)>)
    ensures
        0 <= timestamp <= LAST_TIMESTAMP ==> hms is Some,
        hms matches Some((hour, minute, second)) ==> {
            let of_day = timestamp as int % 86400;
            &&& hour == of_day / 3600
            &&& minute == (of_day / 60) % 60
            &&& second == of_day % 60
        },
{
    DateTime::from_timestamp(timestamp, 0).map(|t| (t.hour(), t.minute(), t.second()))
}

/// A span of time, as whole days, hours of the day and minutes of the hour.
#[derive(Debug, Clone, Copy, PartialEq, Eq)]
pub struct Time {
    days: u64,
    hours: u64,
    minutes: u64,
}

/// The mathematical content of a [`Time`].
pub struct TimeView {
    pub days: nat,
    pub hours: nat,
    pub minutes: nat,
}

impl TimeView {
    /// The span of `seconds` seconds, without the seconds after the last
    /// whole minute.
    pub open spec fn of_seconds(seconds: nat) -> TimeView {
        TimeView {
            days: seconds / 86400,
            hours: (seconds / 3600) % 24,
            minutes: (seconds / 60) % 60,
        }
    }

    /// The seconds that the span stands for.
    pub open spec fn seconds(self) -> nat {
        self.days * 86400 + self.hours * 3600 + self.minutes * 60
    }
}

/// The span of a number of seconds has less than a day in its hours and
/// less than an hour in its minutes, and falls short of the seconds by less
/// than a minute.
pub proof fn lemma_span_of_seconds(seconds: nat)
    ensures
        TimeView::of_seconds(seconds).hours < 24,
        TimeView::of_seconds(seconds).minutes < 60,
        TimeView::of_seconds(seconds).seconds() <= seconds < TimeView::of_seconds(
            seconds,
        ).seconds() + 60,
{
    let s = seconds as int;
    lemma_breakdown(s, 3600, 24);
    lemma_breakdown(s, 60, 60);
    lemma_fundamental_div_mod(s, 86400);
    lemma_fundamental_div_mod(s, 3600);
    lemma_fundamental_div_mod(s, 60);
    lemma_mod_mod(s, 3600, 24);
}

impl View for Time {
    type V = TimeView;

    closed spec fn view(&self) -> TimeView {
        TimeView {
            days: self.days as nat,
            hours: self.hours as nat,
            minutes: self.minutes as nat,
        }
    }
}

impl Time {
    /// The uptime of a host that has been up for `seconds` seconds.
    pub fn uptime(seconds: u64) -> (t: Time)
        ensures
            t@ == TimeView::of_seconds(seconds as nat),
    {
        let days: u64 = seconds / SECONDS_PER_DAY;
        let rem: u64 = seconds % SECONDS_PER_DAY;
        let hours: u64 = rem / SECONDS_PER_HOUR;
        let rem: u64 = rem % SECONDS_PER_HOUR;
        let minutes: u64 = rem / SECONDS_PER_MINUTE;
        proof {
            let s = seconds as int;
            lemma_breakdown(s, 3600, 24);
            lemma_mod_mod(s, 3600, 24);
            lemma_breakdown(s, 60, 60);
        }
        Time { days, hours, minutes }
    }

    /// The whole days.
    pub fn days(&self) -> (d: u64)
        ensures
            d == self@.days,
    {
        self.days
    }

    /// The hours after the last whole day.
    pub fn hours(&self) -> (h: u64)
        ensures
            h == self@.hours,
    {
        self.hours
    }

    /// The minutes after the last whole hour.
    pub fn minutes(&self) -> (m: u64)
        ensures
            m == self@.minutes,
    {
        self.minutes
    }
}

} // verus!
