//! Calendar dates, times of day and date-times with their UTC offset, as
//! plain numbers; reading them from text and placing a local time in the
//! portal's time zone.

use vstd::prelude::*;
use chrono::{Datelike, Offset, Timelike};
use chrono::format::ParseErrorKind;
use crate::serializable_parse_error_kind::SerializableParseErrorKind;
use crate::serializable_parse_error_kind::SerializableParseErrorKind as Kind;

verus! {

/// A calendar date.
#[derive(Clone, Copy, PartialEq, Eq, Structural, PartialOrd, Ord, Debug, Hash)]
pub struct Date {
    pub year: i32,
    pub month: u32,
    pub day: u32,
}

/// A time of day.
#[derive(Clone, Copy, PartialEq, Eq, Structural, PartialOrd, Ord, Debug, Hash)]
pub struct Time {
    pub hour: u32,
    pub minute: u32,
    pub second: u32,
}

/// A date and a time of day, with no time zone.
#[derive(Clone, Copy, PartialEq, Eq, Structural, PartialOrd, Ord, Debug, Hash)]
pub struct LocalDateTime {
    pub date: Date,
    pub time: Time,
}

/// A local date-time together with its offset from UTC, in seconds.
#[derive(Clone, Copy, PartialEq, Eq, Structural, PartialOrd, Ord, Debug, Hash)]
pub struct DateTime {
    pub local: LocalDateTime,
    pub offset_seconds: i32,
}

impl View for Date {
    type V = Date;

    open spec fn view(&self) -> Date {
        *self
    }
}

impl View for DateTime {
    type V = DateTime;

    open spec fn view(&self) -> DateTime {
        *self
    }
}

impl View for Time {
    type V = Time;

    open spec fn view(&self) -> Time {
        *self
    }
}

pub open spec fn valid_time(hour: u32, minute: u32, second: u32) -> bool {
    hour < 24 && minute < 60 && second < 60
}

impl Time {
    /// The time of day `hour:minute:second`, if each part is in range.
    pub fn from_hms(hour: u32, minute: u32, second: u32) -> (r: Option<Time>)
        ensures
            valid_time(hour, minute, second) ==> r == Some(Time { hour, minute, second }),
            !valid_time(hour, minute, second) ==> r is None,
    {
        if hour < 24 && minute < 60 && second < 60 {
            Some(Time { hour, minute, second })
        } else {
            None
        }
    }
}

/// What chrono's `NaiveDateTime::parse_from_str` makes of a text in the
/// format `%Y-%m-%d %H:%M:%S`.
pub uninterp spec fn local_datetime_parse(s: Seq<char>) -> Result<LocalDateTime, SerializableParseErrorKind>;

/// What chrono's `NaiveDate::parse_from_str` makes of a text in a format.
pub uninterp spec fn date_parse(s: Seq<char>, format: Seq<char>) -> Result<Date, SerializableParseErrorKind>;

/// The offset from UTC, in seconds, that the Europe/Kyiv zone gives a local
/// date-time, the earliest one where the local time is ambiguous; none where
/// the zone skips it or the date does not exist.
pub uninterp spec fn kyiv_earliest_offset(t: LocalDateTime) -> Option<i32>;

/// Relies on chrono's `NaiveDateTime::parse_from_str` with the format
/// `%Y-%m-%d %H:%M:%S`, and on `ParseError::kind` for the failures.
#[verifier::external_body]
fn parse_local_datetime(s: &str) -> (r: Result<LocalDateTime, SerializableParseErrorKind>)
    ensures
        r == local_datetime_parse(s@),
{
    match chrono::NaiveDateTime::parse_from_str(s, "%Y-%m-%d %H:%M:%S") {
        Ok(v) => Ok(LocalDateTime {
            date: Date { year: v.year(), month: v.month(), day: v.day() },
            time: Time { hour: v.hour(), minute: v.minute(), second: v.second() },
        }),
        Err(e) => Err(match e.kind() {
            ParseErrorKind::OutOfRange => Kind::OutOfRange, ParseErrorKind::Impossible => Kind::Impossible,
            ParseErrorKind::NotEnough => Kind::NotEnough, ParseErrorKind::Invalid => Kind::Invalid,
            ParseErrorKind::TooShort => Kind::TooShort, ParseErrorKind::TooLong => Kind::TooLong,
            ParseErrorKind::BadFormat => Kind::BadFormat, _ => Kind::Unknown,
        }),
    }
}

/// Relies on chrono's `NaiveDate::parse_from_str`, and on `ParseError::kind`
/// for the failures.
#[verifier::external_body]
fn parse_date_with(s: &str, format: &str) -> (r: Result<Date, SerializableParseErrorKind>)
    ensures
        r == date_parse(s@, format@),
{
    match chrono::NaiveDate::parse_from_str(s, format) {
        Ok(v) => Ok(Date { year: v.year(), month: v.month(), day: v.day() }),
        Err(e) => Err(match e.kind() {
            ParseErrorKind::OutOfRange => Kind::OutOfRange, ParseErrorKind::Impossible => Kind::Impossible,
            ParseErrorKind::NotEnough => Kind::NotEnough, ParseErrorKind::Invalid => Kind::Invalid,
            ParseErrorKind::TooShort => Kind::TooShort, ParseErrorKind::TooLong => Kind::TooLong,
            ParseErrorKind::BadFormat => Kind::BadFormat, _ => Kind::Unknown,
        }),
    }
}

/// Relies on chrono's `NaiveDate::from_ymd_opt`, `NaiveDate::and_hms_opt`,
/// `NaiveDateTime::and_local_timezone` with chrono-tz's `Europe::Kyiv`, and
/// `MappedLocalTime::earliest`.
#[verifier::external_body]
fn kyiv_offset(t: LocalDateTime) -> (r: Option<i32>)
    ensures
        r == kyiv_earliest_offset(t),
{
    let date = chrono::NaiveDate::from_ymd_opt(t.date.year, t.date.month, t.date.day)?;
    let local = date.and_hms_opt(t.time.hour, t.time.minute, t.time.second)?;
    let zoned = local.and_local_timezone(chrono_tz::Europe::Kyiv).earliest()?;
    Some(zoned.offset().fix().local_minus_utc())
}

/// A local date-time placed in the Europe/Kyiv zone at its earliest offset; a
/// local time that the zone skips is `Impossible`.
pub open spec fn in_kyiv(t: LocalDateTime) -> Result<DateTime, SerializableParseErrorKind> {
    match kyiv_earliest_offset(t) {
        Some(o) => Ok(DateTime { local: t, offset_seconds: o }),
        None => Err(SerializableParseErrorKind::Impossible),
    }
}

/// The date-time that `YYYY-MM-DD HH:MM:SS` denotes in Europe/Kyiv.
pub open spec fn kyiv_datetime_of(s: Seq<char>) -> Result<DateTime, SerializableParseErrorKind> {
    match local_datetime_parse(s) {
        Ok(t) => in_kyiv(t),
        Err(e) => Err(e),
    }
}

/// Reads `YYYY-MM-DD HH:MM:SS` as a civil time of Europe/Kyiv.
pub fn kyiv_datetime(s: &str) -> (r: Result<DateTime, SerializableParseErrorKind>)
    ensures
        r == kyiv_datetime_of(s@),
{
    match parse_local_datetime(s) {
        Ok(t) => match kyiv_offset(t) {
            Some(o) => Ok(DateTime { local: t, offset_seconds: o }),
            None => Err(SerializableParseErrorKind::Impossible),
        },
        Err(e) => Err(e),
    }
}

/// Reads a date in the given chrono format, such as `%d.%m.%Y`.
pub fn parse_date(s: &str, format: &str) -> (r: Result<Date, SerializableParseErrorKind>)
    ensures
        r == date_parse(s@, format@),
{
    parse_date_with(s, format)
}

} // verus!
