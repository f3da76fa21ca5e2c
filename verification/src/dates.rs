//! Date and timestamp parsing at the boundary: query dates arrive as
//! `YYYY-MM-DD` text and appointment start times as ISO-8601 text with an
//! offset. Parsing goes through chrono; the engine itself works only on
//! the plain `Date` and `Timestamp` values recovered here.

use vstd::prelude::*;

use chrono::{Datelike, Offset, Timelike};

use crate::model::{Date, Error, Timestamp};

verus! {

/// What chrono::NaiveDate::parse_from_str with format `%Y-%m-%d` makes of
/// the text: year, month and day, or nothing. Deterministic in the text.
pub uninterp spec fn date_of_str(s: Seq<char>) -> Option<(i32, u8, u8)>;

/// What chrono::DateTime::parse_from_rfc3339 makes of the text: year,
/// month, day, hour, minute and offset seconds in the stored offset, or
/// nothing. Deterministic in the text.
pub uninterp spec fn timestamp_of_str(s: Seq<char>) -> Option<(i32, u8, u8, u8, u8, i32)>;

/// Relies on chrono::NaiveDate::parse_from_str with format `%Y-%m-%d`: a
/// parsed date is a real calendar date.
#[verifier::external_body]
fn parse_naive_date(s: &str) -> (r: Option<(i32, u8, u8)>)
    ensures
        r == date_of_str(s@),
        r matches Some(d) ==> 1 <= d.1 <= 12 && 1 <= d.2 <= 31,
{
    let d = chrono::NaiveDate::parse_from_str(s, "%Y-%m-%d").ok()?;
    Some((d.year(), d.month() as u8, d.day() as u8))
}

/// Relies on chrono::DateTime::parse_from_rfc3339: a parsed timestamp
/// carries a real calendar date and clock time, and an offset strictly
/// within one day of seconds.
#[verifier::external_body]
fn parse_rfc3339_parts(s: &str) -> (r: Option<(i32, u8, u8, u8, u8, i32)>)
    ensures
        r == timestamp_of_str(s@),
        r matches Some(t) ==> 1 <= t.1 <= 12 && 1 <= t.2 <= 31 && t.3 < 24 && t.4 < 60
            && -86400 < t.5 < 86400,
{
    let dt = chrono::DateTime::parse_from_rfc3339(s).ok()?;
    Some((
        dt.year(),
        dt.month() as u8,
        dt.day() as u8,
        dt.hour() as u8,
        dt.minute() as u8,
        dt.offset().fix().local_minus_utc(),
    ))
}

/// Parses a `YYYY-MM-DD` query date.
pub fn parse_date(s: &str) -> (r: Result<Date, Error>)
    ensures
        r matches Ok(d) ==> date_of_str(s@) == Some((d.year, d.month, d.day)) && 1 <= d.month
            <= 12 && 1 <= d.day <= 31,
        r matches Err(e) ==> e == Error::InvalidDate,
        r is Ok <==> date_of_str(s@) is Some,
{
    match parse_naive_date(s) {
        Some((year, month, day)) => Ok(Date { year, month, day }),
        None => Err(Error::InvalidDate),
    }
}

/// Parses an ISO-8601 start time with offset into the plain value the
/// engine works on: the calendar date in the stored offset, the minute of
/// that day, and the offset in whole minutes.
pub fn parse_timestamp(s: &str) -> (r: Result<Timestamp, Error>)
    ensures
        r matches Ok(t) ==> (timestamp_of_str(s@) matches Some(p) && t.date == (Date {
            year: p.0,
            month: p.1,
            day: p.2,
        }) && t.minute_of_day == p.3 * 60 + p.4),
        r matches Err(e) ==> e == Error::InvalidDate,
        r is Ok <==> timestamp_of_str(s@) is Some,
{
    match parse_rfc3339_parts(s) {
        Some((year, month, day, hour, minute, offset_secs)) => {
            let minute_of_day: u16 = (hour as u16) * 60 + (minute as u16);
            let offset_minutes: i16 = if offset_secs >= 0 {
                (offset_secs / 60) as i16
            } else {
                -((-offset_secs / 60) as i16)
            };
            Ok(Timestamp { date: Date { year, month, day }, minute_of_day, offset_minutes })
        },
        None => Err(Error::InvalidDate),
    }
}

} // verus!
