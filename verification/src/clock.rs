//! Times of day, and the clock and time parsing that chrono provides.

use vstd::prelude::*;
use chrono::Timelike;

verus! {

/// Seconds in a day.
pub const SECS_PER_DAY: u32 = 86400;

/// A time of day, in whole seconds since midnight.
#[derive(Clone, Copy, Debug, PartialEq, Eq, Structural)]
pub struct TimeOfDay {
    pub secs: u32,
}

impl TimeOfDay {
    /// Within one day.
    pub open spec fn wf(self) -> bool {
        self.secs < SECS_PER_DAY
    }

    /// Usable as the (exclusive) end of a range: at most the end of the day.
    pub open spec fn wf_end(self) -> bool {
        self.secs <= SECS_PER_DAY
    }

    /// The time `hour:minute:second`, if each part is in range.
    pub fn from_hms(hour: u32, minute: u32, second: u32) -> (r: Option<TimeOfDay>)
        ensures
            r is Some <==> (hour < 24 && minute < 60 && second < 60),
            r matches Some(t) ==> t.secs == hour * 3600 + minute * 60 + second && t.wf(),
    {
        if hour < 24 && minute < 60 && second < 60 {
            Some(TimeOfDay { secs: hour * 3600 + minute * 60 + second })
        } else {
            None
        }
    }
}

/// What `chrono::NaiveTime::parse_from_str(text, fmt)` gives, as seconds since
/// midnight (`None` where it fails).
pub uninterp spec fn chrono_time_of(text: Seq<char>, fmt: Seq<char>) -> Option<u32>;

/// Calls `chrono::NaiveTime::parse_from_str` and takes the parsed time's
/// `num_seconds_from_midnight`. The contract names the result; beyond the name it
/// states only that a parsed time lies within one day, which `NaiveTime` keeps.
#[verifier::external_body]
pub(crate) fn parse_time_with_format(text: &str, fmt: &str) -> (r: Option<u32>)
    ensures
        r == chrono_time_of(text@, fmt@),
        r matches Some(s) ==> s < SECS_PER_DAY,
{
    match chrono::NaiveTime::parse_from_str(text, fmt) {
        Ok(t) => Some(t.num_seconds_from_midnight()),
        Err(_) => None,
    }
}

/// Calls `chrono::Local::now()` and takes the local time of day in whole
/// seconds (`num_seconds_from_midnight`). Only that it lies within one day is
/// stated: the value depends on the clock. `Local::now` panics where the system
/// clock is before 1970 or the local time zone data cannot be used (a missing
/// zone falls back to UTC); those are states of the machine, not inputs, and
/// are left unsaid.
#[verifier::external_body]
pub(crate) fn local_time_now() -> (r: TimeOfDay)
    ensures
        r.wf(),
{
    TimeOfDay { secs: chrono::Local::now().time().num_seconds_from_midnight() }
}

/// The shape of a date written with chrono's `%Y-%m-%d`: a year of at least
/// four characters (zero-padded, with a sign outside 0..=9999), `-`, a
/// two-digit month, `-`, a two-digit day.
pub open spec fn is_date_text(t: Seq<char>) -> bool {
    let n = t.len() as int;
    &&& n >= 10
    &&& t[n - 6] == '-'
    &&& t[n - 3] == '-'
    &&& is_ascii_digit(t[n - 5]) && is_ascii_digit(t[n - 4])
    &&& is_ascii_digit(t[n - 2]) && is_ascii_digit(t[n - 1])
}

/// An ASCII decimal digit.
pub open spec fn is_ascii_digit(c: char) -> bool {
    0x30 <= (c as u32) <= 0x39
}

/// Calls `chrono::Local::now()` and formats the local date with `%Y-%m-%d`.
/// Of the text only its shape is stated (`%Y` pads the year to four digits,
/// `%m` and `%d` pad to two); which date it names depends on the clock.
/// `Local::now` panics where the system clock is before 1970 or the local
/// time zone data cannot be used (a missing zone falls back to UTC); those
/// are states of the machine, not inputs, and are left unsaid.
#[verifier::external_body]
pub(crate) fn local_date_text() -> (r: String)
    ensures
        is_date_text(r@),
{
    chrono::Local::now().format("%Y-%m-%d").to_string()
}

} // verus!
