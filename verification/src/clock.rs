//! Calendar dates, times of day and timestamps as plain values, and the
//! reading of the local clock.

use chrono::{Datelike, Timelike};
use vstd::prelude::*;

verus! {

/// Whether a year of the proleptic Gregorian calendar has a 29 February.
pub open spec fn is_leap_year(year: int) -> bool {
    year % 4 == 0 && (year % 100 != 0 || year % 400 == 0)
}

/// The number of days of a month; 0 where `month` is no month.
pub open spec fn days_in_month(year: int, month: int) -> int {
    if month == 2 {
        if is_leap_year(year) {
            29
        } else {
            28
        }
    } else if month == 4 || month == 6 || month == 9 || month == 11 {
        30
    } else if 1 <= month <= 12 {
        31
    } else {
        0
    }
}

/// A calendar date without a time zone.
#[derive(Debug, Clone, Copy, PartialEq, Eq, Structural)]
pub struct Date {
    pub year: i32,
    pub month: u32,
    pub day: u32,
}

impl Date {
    /// The date exists in the proleptic Gregorian calendar.
    pub open spec fn wf(self) -> bool {
        &&& 1 <= self.month <= 12
        &&& 1 <= self.day <= days_in_month(self.year as int, self.month as int)
    }

    /// The date of the given year, month and day, if there is such a day.
    pub fn new(year: i32, month: u32, day: u32) -> (date: Option<Date>)
        ensures
            date == if (Date { year, month, day }).wf() {
                Some(Date { year, month, day })
            } else {
                None::<Date>
            },
    {
        if month < 1 || month > 12 || day < 1 {
            return None;
        }
        let leap = year % 4 == 0 && (year % 100 != 0 || year % 400 == 0);
        let length: u32 = if month == 2 {
            if leap {
                29
            } else {
                28
            }
        } else if month == 4 || month == 6 || month == 9 || month == 11 {
            30
        } else {
            31
        };
        if day <= length {
            Some(Date { year, month, day })
        } else {
            None
        }
    }
}

/// A wall-clock time without a date or a time zone: the whole seconds since
/// midnight, and the nanoseconds since that second. During a leap second
/// `nanos` runs on from 1,000,000,000.
#[derive(Debug, Clone, Copy, PartialEq, Eq, Structural)]
pub struct TimeOfDay {
    pub seconds: u32,
    pub nanos: u32,
}

impl TimeOfDay {
    /// The time lies within one day.
    pub open spec fn wf(self) -> bool {
        self.seconds < 86_400 && self.nanos < 2_000_000_000
    }

    /// `self` is strictly later in the day than `other`.
    pub open spec fn later_than(self, other: TimeOfDay) -> bool {
        self.seconds > other.seconds || (self.seconds == other.seconds && self.nanos
            > other.nanos)
    }

    /// The time `hour:minute:00`.
    pub open spec fn at(hour: int, minute: int) -> TimeOfDay {
        TimeOfDay { seconds: (hour * 3600 + minute * 60) as u32, nanos: 0 }
    }

    /// The full minute `hour:minute`, if the hour is below 24 and the minute
    /// below 60.
    pub fn from_hm(hour: u32, minute: u32) -> (time: Option<TimeOfDay>)
        ensures
            time == if hour < 24 && minute < 60 {
                Some(TimeOfDay::at(hour as int, minute as int))
            } else {
                None::<TimeOfDay>
            },
            time matches Some(t) ==> t.wf(),
    {
        if hour < 24 && minute < 60 {
            Some(TimeOfDay { seconds: hour * 3600 + minute * 60, nanos: 0 })
        } else {
            None
        }
    }

    /// Whether `self` is strictly later in the day than `other`.
    pub fn is_after(&self, other: &TimeOfDay) -> (later: bool)
        ensures
            later == self.later_than(*other),
    {
        self.seconds > other.seconds || (self.seconds == other.seconds && self.nanos
            > other.nanos)
    }
}

/// A moment as the local clock shows it: the local date, the local time of
/// day, and how many seconds local time is ahead of UTC.
#[derive(Debug, Clone, Copy, PartialEq, Eq, Structural)]
pub struct Timestamp {
    pub date: Date,
    pub time: TimeOfDay,
    pub utc_offset: i32,
}

impl Timestamp {
    pub open spec fn wf(self) -> bool {
        &&& self.date.wf()
        &&& self.time.wf()
        &&& -86_400 < self.utc_offset < 86_400
    }
}

/// What `chrono::NaiveTime::parse_from_str` makes of a text under the format
/// `%H:%M`: the time it reads, or `None` where it reports an error.
pub uninterp spec fn parsed_hour_minute(text: Seq<char>) -> Option<TimeOfDay>;

/// Reads the machine's clock in the local time zone, by `chrono::Local::now`.
/// Nothing is claimed of the moment but that its parts are in range: chrono
/// hands out existing dates, times within a day and offsets of less than a
/// day.
#[verifier::external_body]
pub(crate) fn local_now() -> (now: Timestamp)
    ensures
        now.wf(),
{
    let now = chrono::Local::now();
    let (date, time) = (now.date_naive(), now.time());
    Timestamp {
        date: Date { year: date.year(), month: date.month(), day: date.day() },
        time: TimeOfDay { seconds: time.num_seconds_from_midnight(), nanos: time.nanosecond() },
        utc_offset: now.offset().local_minus_utc(),
    }
}

/// Parses a time of day by `chrono::NaiveTime::parse_from_str` with the
/// format `%H:%M`. The result is a function of the text alone. Where a time
/// comes back it is a full minute: chrono takes the seconds that the format
/// does not name to be zero.
#[verifier::external_body]
pub(crate) fn parse_hour_minute(text: &str) -> (time: Option<TimeOfDay>)
    ensures
        time == parsed_hour_minute(text@),
        time matches Some(t) ==> t.wf() && t.seconds % 60 == 0 && t.nanos == 0,
{
    match chrono::NaiveTime::parse_from_str(text, "%H:%M") {
        Ok(time) => Some(
            TimeOfDay { seconds: time.num_seconds_from_midnight(), nanos: time.nanosecond() },
        ),
        Err(_) => None,
    }
}

} // verus!
