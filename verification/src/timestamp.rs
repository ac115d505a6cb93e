//! Timestamps of statement rows.
//!
//! A statement gives the moment of a transaction as a calendar date and a
//! time of day, without a time zone. Reading such a text and counting the
//! milliseconds since the Unix epoch are chrono's work; a [`Timestamp`] keeps
//! both results as plain numbers.

use vstd::prelude::*;
use chrono::{Datelike, Timelike};

verus! {

/// A day of the proleptic Gregorian calendar.
#[derive(Clone, Copy, Debug, PartialEq, Eq)]
pub struct CalendarDate {
    pub year: i32,
    pub month: u32,
    pub day: u32,
}

/// A calendar date with a time of day, without a time zone.
#[derive(Clone, Copy, Debug, PartialEq, Eq)]
pub struct CivilTime {
    pub date: CalendarDate,
    pub hour: u32,
    pub minute: u32,
    pub second: u32,
    pub nanosecond: u32,
}

/// A civil time together with its distance from the Unix epoch when it is
/// read as UTC.
#[derive(Clone, Copy, Debug, PartialEq, Eq)]
pub struct Timestamp {
    pub civil: CivilTime,
    pub epoch_millis: i64,
}

/// chrono's error for a text that it cannot read. It is passed on and never
/// looked into.
#[verifier::external_type_specification]
#[verifier::external_body]
pub struct ExParseError(chrono::ParseError);

/// The civil time that chrono reads from `text`, or `None` where it reads
/// none.
pub uninterp spec fn civil_time_of(text: Seq<char>) -> Option<CivilTime>;

/// The milliseconds from 1970-01-01T00:00:00 UTC to `civil` read as UTC, as
/// chrono counts them, or `None` where chrono knows no such date or time of
/// day.
pub uninterp spec fn utc_epoch_millis(civil: CivilTime) -> Option<i64>;

/// `NaiveDateTime::from_str`, and the fields of what it read as `Datelike`
/// and `Timelike` give them. The result is `Ok` exactly where
/// `civil_time_of` is `Some`, and holds that civil time.
#[verifier::external_body]
fn read_civil_time(text: &str) -> (result: Result<CivilTime, chrono::ParseError>)
    ensures
        match result {
            Ok(civil) => civil_time_of(text@) == Some(civil),
            Err(_) => civil_time_of(text@) is None,
        },
{
    let read = text.parse::<chrono::NaiveDateTime>()?;
    Ok(
        CivilTime {
            date: CalendarDate { year: read.year(), month: read.month(), day: read.day() },
            hour: read.hour(),
            minute: read.minute(),
            second: read.second(),
            nanosecond: read.nanosecond(),
        },
    )
}

/// `NaiveDate::from_ymd_opt`, `NaiveDate::and_hms_nano_opt` and, on the
/// result read as UTC, `DateTime::timestamp_millis`: `None` where one of the
/// first two gives `None`, else the count of the third. The result is what
/// `utc_epoch_millis` names.
#[verifier::external_body]
fn count_epoch_millis(civil: &CivilTime) -> (millis: Option<i64>)
    ensures
        millis == utc_epoch_millis(*civil),
{
    match chrono::NaiveDate::from_ymd_opt(civil.date.year, civil.date.month, civil.date.day) {
        Some(date) => match date.and_hms_nano_opt(
            civil.hour,
            civil.minute,
            civil.second,
            civil.nanosecond,
        ) {
            Some(moment) => Some(moment.and_utc().timestamp_millis()),
            None => None,
        },
        None => None,
    }
}

/// The timestamp of a civil time, where it has one.
pub open spec fn timestamp_at(civil: CivilTime) -> Option<Timestamp> {
    match utc_epoch_millis(civil) {
        Some(millis) => Some(Timestamp { civil, epoch_millis: millis }),
        None => None,
    }
}

/// The timestamp that `text` writes, where it writes one.
pub open spec fn timestamp_of(text: Seq<char>) -> Option<Timestamp> {
    match civil_time_of(text) {
        Some(civil) => timestamp_at(civil),
        None => None,
    }
}

impl Timestamp {
    /// The epoch distance is the one that belongs to the civil time.
    pub open spec fn is_consistent(self) -> bool {
        utc_epoch_millis(self.civil) == Some(self.epoch_millis)
    }

    /// The timestamp of `civil`, or `None` where there is no such date or
    /// time of day.
    pub fn new(civil: CivilTime) -> (result: Option<Timestamp>)
        ensures
            result == timestamp_at(civil),
            result matches Some(timestamp) ==> timestamp.is_consistent(),
    {
        match count_epoch_millis(&civil) {
            Some(millis) => Some(Timestamp { civil, epoch_millis: millis }),
            None => None,
        }
    }

    /// Reads a timestamp written as `2026-01-01T10:34:50.211697`: date and
    /// time of day joined by `T`, the seconds with an optional fraction, no
    /// zone. Returns `None` where `text` is no such timestamp.
    pub fn parse(text: &str) -> (result: Option<Timestamp>)
        ensures
            result == timestamp_of(text@),
            result matches Some(timestamp) ==> timestamp.is_consistent(),
    {
        match read_civil_time(text) {
            Ok(civil) => Timestamp::new(civil),
            Err(_) => None,
        }
    }

    /// The calendar date, with the time of day dropped.
    pub fn date(&self) -> (date: CalendarDate)
        ensures
            date == self.civil.date,
    {
        self.civil.date
    }
}

} // verus!
