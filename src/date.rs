//! What every Republican date offers, whichever leap-year rule produced it.

use vstd::prelude::*;

use crate::calendar::{day_index, day_of_year, valid_month_day};
use crate::month::Month;
use crate::numeral::{roman_numeral, to_numeral};
use crate::weekday::{is_weekday_of, Complimentary, Ordinary, Weekday};

verus! {

/// Why a date could not be produced.
#[derive(Debug, Clone, Copy, PartialEq, Eq, Structural)]
pub enum DateError {
    /// Month or day outside the bounds of a Republican year.
    InvalidDate,
    /// The Gregorian date given as a source does not exist.
    InvalidGeorgianCalendarDate,
    /// The local time zone of the host cannot be determined.
    IndeterminateTimezone,
    /// The year or day number lies outside the span that a converter covers.
    OutOfRange,
}

/// A date of the Republican calendar.
pub trait FrcDate {
    /// The year of the date.
    spec fn spec_year(&self) -> int;

    /// The month of the date, 13 for the complementary days.
    spec fn spec_month(&self) -> int;

    /// The day of the month.
    spec fn spec_day(&self) -> int;

    /// Whether the year of the date is a leap year under the rule in use.
    spec fn spec_leap(&self) -> bool;

    /// The month, 13 for the complementary days.
    fn month_int(&self) -> (r: u8)
        ensures
            r == self.spec_month(),
            valid_month_day(self.spec_month(), self.spec_day(), self.spec_leap()),
    ;

    /// The day of the month.
    fn day(&self) -> (r: u8)
        ensures
            r == self.spec_day(),
            valid_month_day(self.spec_month(), self.spec_day(), self.spec_leap()),
    ;

    /// The year.
    fn year(&self) -> (r: i32)
        ensures
            r == self.spec_year(),
    ;

    /// Whether the year is a leap year under the rule that produced the date.
    fn is_leap_year(&self) -> (r: bool)
        ensures
            r == self.spec_leap(),
    ;

    /// The name of the day: a festival on the complementary days, otherwise
    /// the day of the décade.
    fn weekday(&self) -> (r: Weekday)
        ensures
            is_weekday_of(r, self.spec_month(), self.spec_day()),
    {
        if self.month_int() == 13 {
            Weekday::Complimentary(Complimentary::day_of_week(self.day() as i32))
        } else {
            let day_of_decade = (self.day() - 1) % 10 + 1;
            Weekday::Ordinary(Ordinary::day_of_week(day_of_decade as i32))
        }
    }

    /// The month of the date.
    fn month(&self) -> (r: Month)
        ensures
            r.spec_value() == self.spec_month(),
    {
        Month::nth(self.month_int())
    }

    /// One-based position of the date within its year.
    fn day_of_year(&self) -> (r: u16)
        ensures
            r == day_index(self.spec_month(), self.spec_day()) + 1,
    {
        day_of_year(self.month_int(), self.day())
    }
}

/// A Republican date, whichever rule produced it.
#[derive(Debug, Clone, Copy, PartialEq, Eq)]
pub struct Date<D: FrcDate> {
    date: D,
}

impl<D: FrcDate> Date<D> {
    /// The wrapped date.
    pub closed spec fn spec_date(&self) -> D {
        self.date
    }

    /// Wraps `date`.
    pub fn new(date: D) -> (r: Self)
        ensures
            r.spec_date() == date,
    {
        Date { date }
    }

    /// The year in Roman numerals, or `None` for a year below 0 or above
    /// `MAX_NUMERAL_VALUE`.
    pub fn year_as_numeral(&self) -> (r: Option<String>)
        ensures
            r is Some <==> 0 <= self.spec_date().spec_year() <= 3999,
            r is Some ==> r->Some_0@ == roman_numeral(self.spec_date().spec_year() as nat),
    {
        let year = self.date.year();

        if year < 0 || year > u16::MAX as i32 {
            None
        } else {
            to_numeral(year as u16)
        }
    }
}

} // verus!
