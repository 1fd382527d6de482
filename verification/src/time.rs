use vstd::prelude::*;
use chrono::{Datelike, Timelike};

verus! {

/// A time of day as `chrono::NaiveTime` holds it: whole seconds since
/// midnight and the nanoseconds of the current second (a value of
/// 1_000_000_000 or more marks a leap second).
#[derive(Clone, Copy, Debug, PartialEq, Eq, Structural, PartialOrd, Ord, Hash)]
pub struct TimeOfDay {
    pub secs: u32,
    pub frac: u32,
}

/// A calendar date and time of day as `chrono::NaiveDateTime` holds it: the
/// year, the day of the year (1 for January 1st), and a time of day.
#[derive(Clone, Copy, Debug, PartialEq, Eq, Structural, PartialOrd, Ord, Hash)]
pub struct DateTime {
    pub year: i32,
    pub ordinal: u32,
    pub secs: u32,
    pub frac: u32,
}

/// The hour, minute, second and microsecond that `NaiveTime::from_hms_micro_opt`
/// accepts: a leap second is only allowed at second 59.
pub open spec fn valid_hms_micro(hour: u32, min: u32, sec: u32, micro: u32) -> bool {
    &&& hour < 24
    &&& min < 60
    &&& sec < 60
    &&& micro < 2_000_000
    &&& (micro >= 1_000_000 ==> sec == 59)
}

/// The time of day `hour:min:sec.micro`, where it is valid.
pub open spec fn time_from_hms_micro(hour: u32, min: u32, sec: u32, micro: u32) -> Option<TimeOfDay> {
    if valid_hms_micro(hour, min, sec, micro) {
        Some(
            TimeOfDay {
                secs: (hour * 3600 + min * 60 + sec) as u32,
                frac: (micro * 1000) as u32,
            },
        )
    } else {
        None
    }
}

/// `chrono::NaiveTime::from_hms_micro_opt`, read back through
/// `Timelike::num_seconds_from_midnight` and `Timelike::nanosecond`. The
/// crate's source rejects an hour from 24, a minute or second from 60, and a
/// nanosecond count (`micro * 1000`) from 2_000_000_000, or from
/// 1_000_000_000 outside second 59; otherwise it keeps
/// `hour * 3600 + min * 60 + sec` seconds and `micro * 1000` nanoseconds.
#[verifier::external_body]
fn chrono_time_from_hms_micro(hour: u32, min: u32, sec: u32, micro: u32) -> (r: Option<TimeOfDay>)
    ensures
        r == time_from_hms_micro(hour, min, sec, micro),
{
    match chrono::NaiveTime::from_hms_micro_opt(hour, min, sec, micro) {
        Some(t) => Some(TimeOfDay { secs: t.num_seconds_from_midnight(), frac: t.nanosecond() }),
        None => None,
    }
}

/// What `chrono::NaiveDateTime::parse_from_str(s, fmt)` gives, read back as
/// (year, day of the year, seconds since midnight, nanoseconds).
pub uninterp spec fn naive_datetime_parse(s: Seq<char>, fmt: Seq<char>) -> Option<(i32, u32, u32, u32)>;

/// `chrono::NaiveDateTime::parse_from_str` on the text `s` with the format
/// `fmt`, read back through `Datelike::year`, `Datelike::ordinal`,
/// `Timelike::num_seconds_from_midnight` and `Timelike::nanosecond`. What
/// the crate's format parser accepts is left to the name `naive_datetime_parse`.
#[verifier::external_body]
fn chrono_parse_datetime(s: &Vec<char>, fmt: &str) -> (r: Option<(i32, u32, u32, u32)>)
    ensures
        r == naive_datetime_parse(s@, fmt@),
{
    let text: String = s.iter().collect();
    match chrono::NaiveDateTime::parse_from_str(&text, fmt) {
        Ok(t) => Some((t.year(), t.ordinal(), t.num_seconds_from_midnight(), t.nanosecond())),
        Err(_) => None,
    }
}

/// `chrono::NaiveDateTime::MAX`, read back as in `chrono_parse_datetime`: the
/// crate's source makes it December 31st (day 365) of the year 262142 at
/// 23:59:59 and 999_999_999 nanoseconds.
#[verifier::external_body]
fn chrono_max_datetime() -> (r: DateTime)
    ensures
        r == (DateTime { year: 262142, ordinal: 365, secs: 86399, frac: 999_999_999 }),
{
    let t = chrono::NaiveDateTime::MAX;
    DateTime {
        year: t.year(),
        ordinal: t.ordinal(),
        secs: t.num_seconds_from_midnight(),
        frac: t.nanosecond(),
    }
}

/// The format of the exchange's timestamps: `YYYYMMDDhhmmss` followed by the
/// fraction of the second.
pub const TIMESTAMP_FORMAT: &'static str = "%Y%m%d%H%M%S%f";

impl TimeOfDay {
    /// The time `hour:min:sec.micro`; `None` where it is not a valid time.
    pub fn from_hms_micro_opt(hour: u32, min: u32, sec: u32, micro: u32) -> (r: Option<TimeOfDay>)
        ensures
            r == time_from_hms_micro(hour, min, sec, micro),
    {
        chrono_time_from_hms_micro(hour, min, sec, micro)
    }
}

impl DateTime {
    /// The latest date and time that can be written.
    pub fn max_value() -> (r: DateTime)
        ensures
            r == (DateTime { year: 262142, ordinal: 365, secs: 86399, frac: 999_999_999 }),
    {
        chrono_max_datetime()
    }

    /// Reads a timestamp in `TIMESTAMP_FORMAT`.
    pub fn parse_timestamp(s: &Vec<char>) -> (r: Option<DateTime>)
        ensures
            r == timestamp_from_parts(naive_datetime_parse(s@, TIMESTAMP_FORMAT@)),
    {
        match chrono_parse_datetime(s, TIMESTAMP_FORMAT) {
            Some((year, ordinal, secs, frac)) => Some(DateTime { year, ordinal, secs, frac }),
            None => None,
        }
    }
}

/// The date and time with the given parts.
pub open spec fn timestamp_from_parts(p: Option<(i32, u32, u32, u32)>) -> Option<DateTime> {
    match p {
        Some((year, ordinal, secs, frac)) => Some(DateTime { year, ordinal, secs, frac }),
        None => None,
    }
}

} // verus!
