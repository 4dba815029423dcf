//! Wall-clock time of day.

use vstd::prelude::*;
use chrono::Timelike;

verus! {

/// Seconds in a day.
pub const SECONDS_PER_DAY: u32 = 86_400;

/// Upper limit of the sub-second part: a value of a thousand million or more
/// stands for a leap second.
pub const FRACTION_LIMIT: u32 = 2_000_000_000;

/// The first Unix timestamp that has a date: midnight before the first day
/// of the year 262144 BCE.
pub const FIRST_TIMESTAMP: i64 = -8_334_601_228_800;

/// The last Unix timestamp that has a date: the last second of the year
/// 262142.
pub const LAST_TIMESTAMP: i64 = 8_210_266_876_799;

/// The timestamp lies on a day of the calendar.
pub open spec fn has_date(timestamp: i64) -> bool {
    FIRST_TIMESTAMP <= timestamp <= LAST_TIMESTAMP
}

/// A time of day: whole seconds since midnight, and nanoseconds since that
/// whole second. Times are ordered by the seconds first, then the fraction.
#[derive(Clone, Copy, Debug, PartialEq, Eq, Structural)]
pub struct TimeOfDay {
    pub secs: u32,
    pub frac: u32,
}

impl TimeOfDay {
    /// The value is a time of day.
    pub open spec fn wf(&self) -> bool {
        self.secs < SECONDS_PER_DAY && self.frac < FRACTION_LIMIT
    }

    /// `self` is strictly earlier than `other`.
    pub open spec fn before(&self, other: &TimeOfDay) -> bool {
        self.secs < other.secs || (self.secs == other.secs && self.frac < other.frac)
    }

    /// `self` is `other` or earlier.
    pub open spec fn at_or_before(&self, other: &TimeOfDay) -> bool {
        self.before(other) || *self == *other
    }

    /// The time `hour:minute:00`.
    pub open spec fn hm(hour: u32, minute: u32) -> TimeOfDay {
        TimeOfDay { secs: (hour * 3600 + minute * 60) as u32, frac: 0 }
    }

    /// The time `hour:minute:00`, or `None` where no such time exists.
    pub fn from_hm(hour: u32, minute: u32) -> (time: Option<TimeOfDay>)
        ensures
            time == if hour < 24 && minute < 60 {
                Some(Self::hm(hour, minute))
            } else {
                None
            },
            time is Some ==> time.unwrap().wf(),
    {
        if hour < 24 && minute < 60 {
            Some(TimeOfDay { secs: hour * 3600 + minute * 60, frac: 0 })
        } else {
            None
        }
    }

    /// Nanoseconds from this time to the start of the next minute; none
    /// left within a leap second that has run past it.
    pub open spec fn to_next_minute(&self) -> int {
        let left = (60 - self.secs % 60) * 1_000_000_000 - self.frac;
        if left > 0 {
            left
        } else {
            0
        }
    }

    /// How long to wait, in nanoseconds, for the start of the next minute.
    pub fn until_next_minute(&self) -> (nanos: u64)
        ensures
            nanos == self.to_next_minute(),
            nanos <= 60_000_000_000,
    {
        let whole: u64 = (60 - (self.secs % 60) as u64) * 1_000_000_000;
        if whole > self.frac as u64 {
            whole - self.frac as u64
        } else {
            0
        }
    }

    /// Whether this time is strictly earlier than `other`.
    pub fn lt(&self, other: &TimeOfDay) -> (earlier: bool)
        ensures
            earlier == self.before(other),
    {
        self.secs < other.secs || (self.secs == other.secs && self.frac < other.frac)
    }

    /// Whether this time is `other` or earlier.
    pub fn le(&self, other: &TimeOfDay) -> (not_later: bool)
        ensures
            not_later == self.at_or_before(other),
    {
        self.secs < other.secs || (self.secs == other.secs && self.frac <= other.frac)
    }
}

/// The local wall-clock time of day at this moment, read with
/// `chrono::Local::now`. Nothing is claimed of which time comes back, only
/// that it is a time of day: chrono keeps the seconds since midnight under
/// 86 400 and the sub-second part under two thousand million. (chrono ends
/// the process where the system clock stands before the year 1970.)
#[verifier::external_body]
pub(crate) fn local_now() -> (now: TimeOfDay)
    ensures
        now.wf(),
{
    let time = chrono::Local::now().time();
    TimeOfDay { secs: time.num_seconds_from_midnight(), frac: time.nanosecond() }
}

/// The local wall-clock time of day at a Unix timestamp, by
/// `chrono::DateTime::from_timestamp` and the machine's time zone.
/// `from_timestamp` gives a value exactly for the timestamps whose day lies
/// between chrono's first and last date, which is what `has_date` says.
/// Which time comes back depends on the time zone, so of the time only this
/// is claimed: it is a time of day, and on a whole second, since the
/// timestamp is one and an offset from UTC is counted in seconds. (chrono
/// ends the process where the zone data of the machine gives no offset.)
#[verifier::external_body]
pub(crate) fn local_time_at(timestamp: i64) -> (time: Option<TimeOfDay>)
    ensures
        time is Some <==> has_date(timestamp),
        time is Some ==> time.unwrap().wf() && time.unwrap().frac == 0,
{
    match chrono::DateTime::from_timestamp(timestamp, 0) {
        Some(instant) => {
            let time = instant.with_timezone(&chrono::Local).time();
            Some(TimeOfDay { secs: time.num_seconds_from_midnight(), frac: time.nanosecond() })
        },
        None => None,
    }
}

} // verus!
