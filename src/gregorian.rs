//! Gregorian dates and the current day, as Julian Day Numbers, through the
//! `time` crate.

use vstd::prelude::*;

use crate::date::DateError;

verus! {

/// The error of `time` for a date component out of range; carried, never read.
#[verifier::external_type_specification]
#[verifier::external_body]
pub struct ExComponentRange(time::error::ComponentRange);

/// The error of `time` when the local offset cannot be determined; carried,
/// never read.
#[verifier::external_type_specification]
#[verifier::external_body]
pub struct ExIndeterminateOffset(time::error::IndeterminateOffset);

/// Earliest year of a `time::Date`.
pub const MIN_GREGORIAN_YEAR: i32 = -9999;

/// Latest year of a `time::Date`.
pub const MAX_GREGORIAN_YEAR: i32 = 9999;

/// Julian Day Number of 1 January of the earliest year of a `time::Date`.
pub const MIN_JULIAN_DAY: i32 = -1930999;

/// Julian Day Number of 31 December of the latest year of a `time::Date`.
pub const MAX_JULIAN_DAY: i32 = 5373484;

/// Gregorian leap years.
pub open spec fn gregorian_leap(year: int) -> bool {
    year % 4 == 0 && (year % 100 != 0 || year % 400 == 0)
}

/// Number of days of a Gregorian month.
pub open spec fn gregorian_month_length(year: int, month: int) -> int {
    if month == 2 {
        if gregorian_leap(year) {
            29
        } else {
            28
        }
    } else if month == 4 || month == 6 || month == 9 || month == 11 {
        30
    } else {
        31
    }
}

/// Whether (year, month, day) is a Gregorian date that `time::Date` represents.
pub open spec fn valid_gregorian(year: int, month: int, day: int) -> bool {
    &&& MIN_GREGORIAN_YEAR <= year <= MAX_GREGORIAN_YEAR
    &&& 1 <= month <= 12
    &&& 1 <= day <= gregorian_month_length(year, month)
}

/// Julian Day Number of a proleptic Gregorian date.
pub open spec fn gregorian_julian_day(year: int, month: int, day: int) -> int {
    let a = (14 - month) / 12;
    let y = year + 4800 - a;
    let m = month + 12 * a - 3;
    day + (153 * m + 2) / 5 + 365 * y + y / 4 - y / 100 + y / 400 - 32045
}

/// Relies on `time::Month::try_from`, `time::Date::from_calendar_date` and
/// `time::Date::to_julian_day`: a date is accepted exactly when its year is
/// within ±9999, its month within 1..=12 and its day within the month, and its
/// Julian Day Number is that of the proleptic Gregorian calendar.
#[verifier::external_body]
fn calendar_date_julian_day(year: i32, month: u8, day: u8) -> (r: Result<
    i32,
    time::error::ComponentRange,
>)
    ensures
        r is Ok <==> valid_gregorian(year as int, month as int, day as int),
        r is Ok ==> r->Ok_0 == gregorian_julian_day(year as int, month as int, day as int),
        r is Ok ==> MIN_JULIAN_DAY <= r->Ok_0 <= MAX_JULIAN_DAY,
{
    let month = time::Month::try_from(month)?;
    match time::Date::from_calendar_date(year, month, day) {
        Ok(date) => Ok(date.to_julian_day()),
        Err(e) => Err(e),
    }
}

/// Relies on `time::OffsetDateTime::now_utc` and `to_julian_day`: the Julian
/// Day Number of the current UTC date, a date that `time::Date` represents.
#[verifier::external_body]
pub(crate) fn now_utc_julian_day() -> (r: i32)
    ensures
        MIN_JULIAN_DAY <= r <= MAX_JULIAN_DAY,
{
    time::OffsetDateTime::now_utc().to_julian_day()
}

/// Relies on `time::OffsetDateTime::now_local` and `to_julian_day`: the Julian
/// Day Number of the current local date, or the error that the local offset
/// cannot be determined.
#[verifier::external_body]
pub(crate) fn now_local_julian_day() -> (r: Result<i32, time::error::IndeterminateOffset>)
    ensures
        r is Ok ==> MIN_JULIAN_DAY <= r->Ok_0 <= MAX_JULIAN_DAY,
{
    match time::OffsetDateTime::now_local() {
        Ok(now) => Ok(now.to_julian_day()),
        Err(e) => Err(e),
    }
}

/// Julian Day Number of the Gregorian date (year, month, day).
pub fn gregorian_to_julian_day(year: i32, month: u8, day: u8) -> (r: Result<i32, DateError>)
    ensures
        r is Ok <==> valid_gregorian(year as int, month as int, day as int),
        r is Ok ==> r->Ok_0 == gregorian_julian_day(year as int, month as int, day as int),
        r is Ok ==> MIN_JULIAN_DAY <= r->Ok_0 <= MAX_JULIAN_DAY,
        r is Err ==> r == Err::<i32, DateError>(DateError::InvalidGeorgianCalendarDate),
{
    match calendar_date_julian_day(year, month, day) {
        Ok(jdn) => Ok(jdn),
        Err(_) => Err(DateError::InvalidGeorgianCalendarDate),
    }
}

} // verus!
