//! UTC calendar time over UNIX seconds.
//!
//! The calendar itself is `chrono`'s.  Each function of it that the audit needs
//! is reached through one wrapper below, whose contract is taken on trust; the
//! public functions around them are verified against those contracts.

use chrono::{DateTime, Datelike, Days, NaiveDate, TimeDelta, Timelike, Utc};
use vstd::prelude::*;

use crate::error::AuditError;

verus! {

/// The first second that `chrono` can hold: 00:00:00 on 1 January of the year -262143.
pub const MIN_UTC_SECONDS: i64 = -8_334_601_228_800;

/// The last second that `chrono` can hold: 23:59:59 on 31 December of the year 262142.
pub const MAX_UTC_SECONDS: i64 = 8_210_266_876_799;

/// The calendar date and the hour of the day of an instant in UTC.
#[derive(Clone, Copy, Debug, PartialEq, Eq, Structural)]
pub struct CivilHour {
    pub year: i32,
    pub month: u32,
    pub day: u32,
    pub hour: u32,
}

/// Whether `t` seconds since the epoch is an instant that UTC calendar time can hold.
pub open spec fn representable(t: int) -> bool {
    MIN_UTC_SECONDS <= t <= MAX_UTC_SECONDS
}

/// The top of the hour that `t` lies in: same date and hour, minute and second zero.
/// UTC has neither offsets nor leap seconds here, so hours start at multiples of 3600.
pub open spec fn hour_floor(t: int) -> int {
    t - t % 3_600
}

/// The text `chrono` prints for the instant `t` in UTC, such as
/// `2024-05-12 22:00:00 UTC`.
pub uninterp spec fn utc_text(t: int) -> Seq<char>;

/// The number of seconds since the epoch of the given date and time of day in
/// UTC, as `chrono` computes it; `None` where there is no such date or time.
pub uninterp spec fn utc_seconds_of(
    year: int,
    month: int,
    day: int,
    hour: int,
    minute: int,
    second: int,
) -> Option<i64>;

/// `chrono`: `DateTime::from_timestamp` and the accessors `year`, `month`, `day`
/// and `hour` of the result.
///
/// Trusted: an instant out of range gives `None`.  The fields of an instant in
/// range are its date and hour: that date at that hour, minute and second zero,
/// is the start of the instant's hour.
#[verifier::external_body]
fn chrono_civil_hour(t: i64) -> (r: Option<CivilHour>)
    ensures
        r is Some <==> representable(t as int),
        r matches Some(c) ==> utc_seconds_of(
            c.year as int,
            c.month as int,
            c.day as int,
            c.hour as int,
            0,
            0,
        ) == Some(hour_floor(t as int) as i64),
{
    let time = DateTime::from_timestamp(t, 0)?;
    Some(CivilHour { year: time.year(), month: time.month(), day: time.day(), hour: time.hour() })
}

/// `chrono`: `NaiveDate::from_ymd_opt`, `NaiveDate::and_hms_opt`,
/// `NaiveDateTime::and_local_timezone` with `Utc`, and `DateTime::timestamp`.
///
/// Trusted: the result depends on the six numbers alone, and it is an instant
/// in range.
#[verifier::external_body]
fn chrono_timestamp(year: i32, month: u32, day: u32, hour: u32, minute: u32, second: u32) -> (r:
    Option<i64>)
    ensures
        r == utc_seconds_of(
            year as int,
            month as int,
            day as int,
            hour as int,
            minute as int,
            second as int,
        ),
        r matches Some(t) ==> representable(t as int),
{
    let date = NaiveDate::from_ymd_opt(year, month, day)?;
    let local = date.and_hms_opt(hour, minute, second)?;
    Some(local.and_local_timezone(Utc).single()?.timestamp())
}

/// `chrono`: `DateTime::from_timestamp`, `TimeDelta::minutes`,
/// `DateTime::checked_add_signed` and `timestamp`.
///
/// Trusted: adding whole minutes to an instant in range moves it by sixty seconds
/// each, and gives `None` when the sum is past the last instant.
#[verifier::external_body]
fn chrono_add_minutes(t: i64, minutes: u32) -> (r: Option<i64>)
    ensures
        r == (if representable(t as int) && t + 60 * minutes <= MAX_UTC_SECONDS {
            Some((t + 60 * minutes) as i64)
        } else {
            None
        }),
{
    let time = DateTime::from_timestamp(t, 0)?;
    let moved = time.checked_add_signed(TimeDelta::minutes(i64::from(minutes)))?;
    Some(moved.timestamp())
}

/// `chrono`: `DateTime::from_timestamp`, `Days::new`, `DateTime::checked_sub_days`
/// and `timestamp`.
///
/// Trusted: going back whole days from an instant in range moves it by 86400
/// seconds each, and gives `None` when that is before the first instant.
#[verifier::external_body]
fn chrono_sub_days(t: i64, days: u64) -> (r: Option<i64>)
    ensures
        r == (if representable(t as int) && t - 86_400 * days >= MIN_UTC_SECONDS {
            Some((t - 86_400 * days) as i64)
        } else {
            None
        }),
{
    let time = DateTime::from_timestamp(t, 0)?;
    let moved = time.checked_sub_days(Days::new(days))?;
    Some(moved.timestamp())
}

/// `chrono`: `DateTime::from_timestamp` and the `Display` of `DateTime<Utc>`.
///
/// Trusted: an instant in range is printed, and the text depends on the instant
/// alone; an instant out of range gives `None`.
#[verifier::external_body]
fn chrono_display(t: i64) -> (r: Option<String>)
    ensures
        r is Some <==> representable(t as int),
        r matches Some(s) ==> s@ == utc_text(t as int),
{
    let time = DateTime::from_timestamp(t, 0)?;
    Some(time.to_string())
}

/// Whether `t` is an instant that UTC calendar time can hold.
pub fn is_representable(t: i64) -> (b: bool)
    ensures
        b == representable(t as int),
{
    MIN_UTC_SECONDS <= t && t <= MAX_UTC_SECONDS
}

/// The calendar date and the hour of the day of the instant `t`.
pub fn civil_hour(t: i64) -> (r: Result<CivilHour, AuditError>)
    ensures
        r is Ok <==> representable(t as int),
        r matches Ok(c) ==> utc_seconds_of(
            c.year as int,
            c.month as int,
            c.day as int,
            c.hour as int,
            0,
            0,
        ) == Some(hour_floor(t as int) as i64),
        r matches Err(e) ==> e == AuditError::Arithmetic,
{
    match chrono_civil_hour(t) {
        Some(c) => Ok(c),
        None => Err(AuditError::Arithmetic),
    }
}

/// The instant of the given date and time of day, or `None` where there is no
/// such date or time, or where it is out of range.
pub fn utc_timestamp(year: i32, month: u32, day: u32, hour: u32, minute: u32, second: u32) -> (r:
    Option<i64>)
    ensures
        r == utc_seconds_of(
            year as int,
            month as int,
            day as int,
            hour as int,
            minute as int,
            second as int,
        ),
        r matches Some(t) ==> representable(t as int),
{
    chrono_timestamp(year, month, day, hour, minute, second)
}

/// The top of the hour that `t` lies in: the instant with the date and hour of
/// `t`, and minute and second zero.
pub fn floor_to_hour(t: i64) -> (r: Result<i64, AuditError>)
    ensures
        r is Ok <==> representable(t as int),
        r matches Ok(h) ==> h == hour_floor(t as int),
        r matches Err(e) ==> e == AuditError::Arithmetic,
{
    let fields = match civil_hour(t) {
        Ok(fields) => fields,
        Err(e) => {
            return Err(e);
        },
    };
    match utc_timestamp(fields.year, fields.month, fields.day, fields.hour, 0, 0) {
        Some(start) => Ok(start),
        None => Err(AuditError::Arithmetic),
    }
}

/// The instant `minutes` minutes after `t`.
pub fn add_minutes(t: i64, minutes: u32) -> (r: Result<i64, AuditError>)
    ensures
        r is Ok <==> representable(t as int) && representable(t + 60 * minutes),
        r matches Ok(n) ==> n == t + 60 * minutes,
        r matches Err(e) ==> e == AuditError::Arithmetic,
{
    match chrono_add_minutes(t, minutes) {
        Some(n) => Ok(n),
        None => Err(AuditError::Arithmetic),
    }
}

/// The instant `days` days before `t`.
pub fn sub_days(t: i64, days: u64) -> (r: Result<i64, AuditError>)
    ensures
        r is Ok <==> representable(t as int) && representable(t - 86_400 * days),
        r matches Ok(n) ==> n == t - 86_400 * days,
        r matches Err(e) ==> e == AuditError::Arithmetic,
{
    match chrono_sub_days(t, days) {
        Some(n) => Ok(n),
        None => Err(AuditError::Arithmetic),
    }
}

/// The instant `t` as text, date and time of day followed by `UTC`.
pub fn format_utc(t: i64) -> (r: Result<String, AuditError>)
    ensures
        r is Ok <==> representable(t as int),
        r matches Ok(s) ==> s@ == utc_text(t as int),
        r matches Err(e) ==> e == AuditError::Arithmetic,
{
    match chrono_display(t) {
        Some(s) => Ok(s),
        None => Err(AuditError::Arithmetic),
    }
}

/// The top of the hour is at most `t`, less than an hour before it, a multiple of
/// 3600, and representable whenever `t` is.
pub proof fn lemma_hour_floor_bounds(t: int)
    ensures
        hour_floor(t) <= t < hour_floor(t) + 3_600,
        hour_floor(t) % 3_600 == 0,
        representable(t) ==> representable(hour_floor(t)),
{
}

} // verus!
