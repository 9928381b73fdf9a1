//! Instants in time, modelled as whole seconds since the Unix epoch
//! (1970-01-01 00:00:00 UTC). The feed's timestamps have one-second
//! granularity, so nothing finer is needed. 1970-01-01 was a Thursday,
//! which makes the weekly anchor arithmetic direct: the weekday of an
//! instant is its epoch-day count modulo seven, with Thursday at zero.
use vstd::prelude::*;

verus! {

pub const SECS_PER_MINUTE: u64 = 60;

pub const SECS_PER_HOUR: u64 = 3600;

pub const SECS_PER_DAY: u64 = 86400;

pub const SECS_PER_WEEK: u64 = 604800;

/// Time of day of the weekly anchor: 08:00:00 UTC, in seconds.
pub const ANCHOR_SECS_OF_DAY: u64 = 28800;

/// An instant in UTC, with one-second granularity.
#[derive(Clone, Copy, PartialEq, Eq, Structural, Debug)]
pub struct UtcInstant {
    /// Seconds since 1970-01-01 00:00:00 UTC.
    pub secs: u64,
}

/// Whole days since 1970-01-01.
pub open spec fn epoch_day_of(t: int) -> int {
    t / (SECS_PER_DAY as int)
}

/// Seconds since the last midnight UTC.
pub open spec fn sec_of_day_of(t: int) -> int {
    t % (SECS_PER_DAY as int)
}

/// Hour of the day, 0 to 23.
pub open spec fn hour_of(t: int) -> int {
    sec_of_day_of(t) / (SECS_PER_HOUR as int)
}

/// Days since the most recent Thursday midnight: 0 on a Thursday,
/// 1 on a Friday, ..., 6 on a Wednesday.
pub open spec fn days_since_thursday(t: int) -> int {
    epoch_day_of(t) % 7
}

/// Day of the week, listed from the anchor weekday onward.
#[derive(Clone, Copy, PartialEq, Eq, Structural, Debug)]
pub enum Weekday {
    Thursday,
    Friday,
    Saturday,
    Sunday,
    Monday,
    Tuesday,
    Wednesday,
}

pub open spec fn spec_weekday(t: int) -> Weekday {
    let d = days_since_thursday(t);
    if d == 0 {
        Weekday::Thursday
    } else if d == 1 {
        Weekday::Friday
    } else if d == 2 {
        Weekday::Saturday
    } else if d == 3 {
        Weekday::Sunday
    } else if d == 4 {
        Weekday::Monday
    } else if d == 5 {
        Weekday::Tuesday
    } else {
        Weekday::Wednesday
    }
}

impl UtcInstant {
    pub fn new(secs: u64) -> (r: UtcInstant)
        ensures
            r.secs == secs,
    {
        UtcInstant { secs }
    }

    /// Whole days since 1970-01-01.
    pub fn epoch_day(&self) -> (d: u64)
        ensures
            d == epoch_day_of(self.secs as int),
    {
        self.secs / SECS_PER_DAY
    }

    /// Hour of the day in UTC, 0 to 23.
    pub fn hour(&self) -> (h: u64)
        ensures
            h == hour_of(self.secs as int),
            h < 24,
    {
        (self.secs % SECS_PER_DAY) / SECS_PER_HOUR
    }

    /// Day of the week of this instant, in UTC.
    pub fn weekday(&self) -> (w: Weekday)
        ensures
            w == spec_weekday(self.secs as int),
    {
        let d: u64 = (self.secs / SECS_PER_DAY) % 7;
        if d == 0 {
            Weekday::Thursday
        } else if d == 1 {
            Weekday::Friday
        } else if d == 2 {
            Weekday::Saturday
        } else if d == 3 {
            Weekday::Sunday
        } else if d == 4 {
            Weekday::Monday
        } else if d == 5 {
            Weekday::Tuesday
        } else {
            Weekday::Wednesday
        }
    }
}

} // verus!
