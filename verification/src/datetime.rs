//! Date and time reading for the two SBS-1 date/time field pairs.
//!
//! The calendar work itself (leap years, month lengths, fraction digits) is
//! done by chrono; the library only states that each read is a function of
//! the text alone and carries the result around as plain integers.

use vstd::prelude::*;

use crate::sbs::{SbsDate, SbsTime};
use chrono::{Datelike, NaiveDate, NaiveTime, Timelike};

verus! {

/// Year, month and day that chrono reads from a text in the `YYYY/MM/DD`
/// format, if any.
pub uninterp spec fn chrono_ymd_of(s: Seq<char>) -> Option<(i32, u32, u32)>;

/// Hour, minute, second and nanosecond that chrono reads from a text in
/// the `HH:MM:SS` format with an optional fraction, if any.
pub uninterp spec fn chrono_hms_of(s: Seq<char>) -> Option<(u32, u32, u32, u32)>;

/// Relies on chrono::NaiveDate::parse_from_str with the `%Y/%m/%d` format:
/// the result depends on the text alone; the fields come back through the
/// `Datelike` accessors, which document month in 1..=12 and day in 1..=31.
#[verifier::external_body]
pub fn parse_date_ymd(s: &str) -> (r: Option<SbsDate>)
    ensures
        r matches Some(d) ==> chrono_ymd_of(s@) == Some((d.year, d.month, d.day)),
        r matches Some(d) ==> 1 <= d.month <= 12 && 1 <= d.day <= 31,
        r is None <==> chrono_ymd_of(s@) is None,
{
    match NaiveDate::parse_from_str(s, "%Y/%m/%d") {
        Ok(d) => Some(SbsDate { year: d.year(), month: d.month(), day: d.day() }),
        Err(_) => None,
    }
}

/// Relies on chrono::NaiveTime::parse_from_str with the `%H:%M:%S%.f`
/// format: the result depends on the text alone; the fields come back
/// through the `Timelike` accessors, which document hour in 0..=23,
/// minute and second in 0..=59, and nanosecond up to 1_999_999_999.
#[verifier::external_body]
pub fn parse_time_hms(s: &str) -> (r: Option<SbsTime>)
    ensures
        r matches Some(t) ==> chrono_hms_of(s@) == Some(
            (t.hour, t.minute, t.second, t.nanosecond),
        ),
        r matches Some(t) ==> t.hour <= 23 && t.minute <= 59 && t.second <= 59
            && t.nanosecond <= 1_999_999_999,
        r is None <==> chrono_hms_of(s@) is None,
{
    match NaiveTime::parse_from_str(s, "%H:%M:%S%.f") {
        Ok(t) => Some(
            SbsTime {
                hour: t.hour(),
                minute: t.minute(),
                second: t.second(),
                nanosecond: t.nanosecond(),
            },
        ),
        Err(_) => None,
    }
}

} // verus!
