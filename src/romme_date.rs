//! Republican dates under the Romme rule: the leap years are those that the
//! Gregorian 4/100/400 rule picks, applied to the Republican year number, and
//! day counts are split into dates by peeling off 400-, 100-, 4- and 1-year
//! blocks.

use vstd::prelude::*;

use vstd::arithmetic::div_mod::lemma_fundamental_div_mod_converse;

use crate::calendar::{
    complementary_days, date_lt, day_index, lemma_day_index_bounds, lemma_day_index_order,
    month_and_day, valid_month_day, valid_month_day_exec, year_length,
};
use crate::date::{DateError, FrcDate};
use crate::gregorian::{
    gregorian_julian_day, gregorian_to_julian_day, now_local_julian_day, now_utc_julian_day,
    valid_gregorian,
};

verus! {

/// Whole 400-year cycles added to a day count before it is split, so that
/// the count is never negative.
const SHIFT_CYCLES: i64 = 14700;

const SHIFT_DAYS: i64 = 146097 * 14700;

/// Whole 400-year cycles added to a year before leap years are counted.
const YEAR_SHIFT_CYCLES: i64 = 5368710;

const YEAR_SHIFT: i64 = 400 * 5368710;

/// Julian Day Number of 1 Vendémiaire of year 1, 22 September 1792.
pub open spec fn epoch_julian_day() -> int {
    gregorian_julian_day(1792, 9, 22)
}

/// Leap years under the Romme rule.
pub open spec fn romme_leap(year: int) -> bool {
    year % 4 == 0 && (year % 100 != 0 || year % 400 == 0)
}

/// Leap years from year 1 up to, not including, `year` (negated below year 1).
pub open spec fn romme_leaps_before(year: int) -> int {
    (year - 1) / 4 - (year - 1) / 100 + (year - 1) / 400
}

/// Day offset, counted from 1 Vendémiaire of year 1, of the first day of `year`.
pub open spec fn romme_year_start(year: int) -> int {
    365 * (year - 1) + romme_leaps_before(year)
}

/// Whether (year, month, day) is a date under the Romme rule.
pub open spec fn is_romme_date(year: int, month: int, day: int) -> bool {
    valid_month_day(month, day, romme_leap(year))
}

/// Day offset of a date, counted from 1 Vendémiaire of year 1.
pub open spec fn romme_offset(year: int, month: int, day: int) -> int {
    romme_year_start(year) + day_index(month, day)
}

/// What converting a date to its day offset gives.
pub open spec fn romme_days_result(year: int, month: int, day: int) -> Result<i32, DateError> {
    if !is_romme_date(year, month, day) {
        Err(DateError::InvalidDate)
    } else if i32::MIN <= romme_offset(year, month, day) <= i32::MAX {
        Ok(romme_offset(year, month, day) as i32)
    } else {
        Err(DateError::OutOfRange)
    }
}

/// Each year starts where the one before it ends.
pub proof fn lemma_year_step(year: int)
    ensures
        romme_year_start(year + 1) == romme_year_start(year) + year_length(romme_leap(year)),
{
    let (q4, q100, q400) = (year / 4, year / 100, year / 400);
    let (p4, p100, p400) = ((year - 1) / 4, (year - 1) / 100, (year - 1) / 400);
    lemma_quotient_step(year, 4);
    lemma_quotient_step(year, 100);
    lemma_quotient_step(year, 400);
    if year % 100 == 0 {
        vstd::arithmetic::div_mod::lemma_fundamental_div_mod(year, 100);
        lemma_fundamental_div_mod_converse(year, 4, 25 * q100, 0);
    }
    if year % 400 == 0 {
        vstd::arithmetic::div_mod::lemma_fundamental_div_mod(year, 400);
        lemma_fundamental_div_mod_converse(year, 100, 4 * q400, 0);
    }
    let next = year + 1;
    assert(next - 1 == year);
    assert(romme_leaps_before(next) == q4 - q100 + q400);
    assert(romme_leaps_before(year) == p4 - p100 + p400);
}

proof fn lemma_quotient_step(y: int, k: int)
    requires
        k > 0,
    ensures
        y / k == (y - 1) / k + (if y % k == 0 {
            1int
        } else {
            0int
        }),
{
    let p = y - 1;
    vstd::arithmetic::div_mod::lemma_fundamental_div_mod(p, k);
    vstd::arithmetic::div_mod::lemma_mod_bound(p, k);
    let q = p / k;
    let r = p % k;
    assert(y == q * k + r + 1) by (nonlinear_arith)
        requires
            p == k * q + r,
            y == p + 1,
    ;
    if r == k - 1 {
        assert(y == (q + 1) * k + 0) by (nonlinear_arith)
            requires
                y == q * k + r + 1,
                r == k - 1,
        ;
        lemma_fundamental_div_mod_converse(y, k, q + 1, 0);
    } else {
        lemma_fundamental_div_mod_converse(y, k, q, r + 1);
    }
}

/// A later year starts after an earlier one ends.
pub proof fn lemma_year_start_increasing(y1: int, y2: int)
    requires
        y1 < y2,
    ensures
        romme_year_start(y1) + year_length(romme_leap(y1)) <= romme_year_start(y2),
    decreases y2 - y1,
{
    lemma_year_step(y1);
    if y1 + 1 < y2 {
        lemma_year_start_increasing(y1 + 1, y2);
    }
}

/// Later offsets belong to later dates: between dates of the Romme rule, the
/// order of day offsets is the lexicographic order of (year, month, day), and
/// equal offsets belong to the same date.
pub proof fn lemma_offset_order(y1: int, m1: int, d1: int, y2: int, m2: int, d2: int)
    requires
        is_romme_date(y1, m1, d1),
        is_romme_date(y2, m2, d2),
    ensures
        romme_offset(y1, m1, d1) < romme_offset(y2, m2, d2) <==> date_lt(y1, m1, d1, y2, m2, d2),
        romme_offset(y1, m1, d1) == romme_offset(y2, m2, d2) <==> (y1 == y2 && m1 == m2 && d1
            == d2),
{
    lemma_day_index_bounds(m1, d1, romme_leap(y1));
    lemma_day_index_bounds(m2, d2, romme_leap(y2));
    if y1 < y2 {
        lemma_year_start_increasing(y1, y2);
    } else if y2 < y1 {
        lemma_year_start_increasing(y2, y1);
    } else {
        lemma_day_index_order(m1, d1, m2, d2, romme_leap(y1));
    }
}

/// A date converted to its day offset and back is the same date: for a date
/// whose offset fits an `i32`, the only (year, month, day) that `from_days`
/// may return for that offset is the date itself.
pub proof fn lemma_round_trip_date(year: int, month: int, day: int, back: (i32, u8, u8))
    requires
        romme_days_result(year, month, day) is Ok,
        is_romme_date(back.0 as int, back.1 as int, back.2 as int),
        romme_offset(back.0 as int, back.1 as int, back.2 as int) == romme_days_result(
            year,
            month,
            day,
        )->Ok_0,
    ensures
        back.0 == year,
        back.1 == month,
        back.2 == day,
{
    lemma_offset_order(year, month, day, back.0 as int, back.1 as int, back.2 as int);
}

/// A day offset converted to a date and back is the same offset.
pub proof fn lemma_round_trip_offset(days: i32, date: (i32, u8, u8))
    requires
        is_romme_date(date.0 as int, date.1 as int, date.2 as int),
        romme_offset(date.0 as int, date.1 as int, date.2 as int) == days,
    ensures
        romme_days_result(date.0 as int, date.1 as int, date.2 as int) == Ok::<i32, DateError>(
            days,
        ),
{
}

/// The complementary month has six days in a leap year and five otherwise:
/// its last day is followed by 1 Vendémiaire of the next year.
pub proof fn lemma_complementary_days(year: int)
    ensures
        is_romme_date(year, 13, 5),
        is_romme_date(year, 13, 6) <==> romme_leap(year),
        !is_romme_date(year, 13, 7),
        romme_offset(year + 1, 1, 1) == romme_offset(year, 13, complementary_days(romme_leap(year)))
            + 1,
{
    lemma_year_step(year);
}

/// A day count split into 400-, 100-, 4- and 1-year blocks and a remainder
/// gives the year and the position within it.
proof fn lemma_blocks(days: int, cycles: int, centuries: int, quads: int, years: int, index: int)
    requires
        0 <= centuries <= 3,
        0 <= quads <= 24,
        0 <= years <= 3,
        0 <= index <= 365,
        days == 146097 * cycles + 36524 * centuries + 1461 * quads + 365 * years + index,
        index == 365 ==> years == 3,
        index == 365 && quads == 24 ==> centuries == 3,
    ensures
        romme_year_start(400 * cycles + 100 * centuries + 4 * quads + years + 1) + index == days,
        index < year_length(romme_leap(400 * cycles + 100 * centuries + 4 * quads + years + 1)),
{
    let year = 400 * cycles + 100 * centuries + 4 * quads + years + 1;
    let p = year - 1;
    lemma_fundamental_div_mod_converse(p, 4, 100 * cycles + 25 * centuries + quads, years);
    lemma_fundamental_div_mod_converse(p, 100, 4 * cycles + centuries, 4 * quads + years);
    lemma_fundamental_div_mod_converse(p, 400, cycles, 100 * centuries + 4 * quads + years);
    if index == 365 {
        lemma_fundamental_div_mod_converse(year, 4, 100 * cycles + 25 * centuries + quads + 1, 0);
        if quads < 24 {
            lemma_fundamental_div_mod_converse(year, 100, 4 * cycles + centuries, 4 * quads + 4);
        } else {
            lemma_fundamental_div_mod_converse(year, 400, cycles + 1, 0);
        }
    }
}

/// A date under the Romme rule, with its day offset from 1 Vendémiaire of year 1.
#[derive(Debug, Clone, Copy, PartialEq, Eq, Structural)]
pub struct RommeDate {
    days: i32,
    year: i32,
    month: u8,
    day: u8,
}

impl RommeDate {
    #[verifier::type_invariant]
    spec fn well_formed(self) -> bool {
        &&& is_romme_date(self.year as int, self.month as int, self.day as int)
        &&& romme_offset(self.year as int, self.month as int, self.day as int) == self.days
    }

    /// Day offset of this date from 1 Vendémiaire of year 1.
    pub closed spec fn spec_days(&self) -> int {
        self.days as int
    }

    /// The date at a day offset from 1 Vendémiaire of year 1.
    pub fn new(days: i32) -> (r: Self)
        ensures
            r.spec_days() == days,
            is_romme_date(r.spec_year(), r.spec_month(), r.spec_day()),
            romme_offset(r.spec_year(), r.spec_month(), r.spec_day()) == days,
    {
        let (year, month, day) = RommeDate::from_days(days);
        RommeDate { days, year, month, day }
    }

    /// Today's date in UTC.
    pub fn today_utc() -> (r: Self)
        ensures
            is_romme_date(r.spec_year(), r.spec_month(), r.spec_day()),
            romme_offset(r.spec_year(), r.spec_month(), r.spec_day()) == r.spec_days(),
    {
        let today = now_utc_julian_day();
        let epoch = RommeDate::epoch();
        RommeDate::new(today - epoch)
    }

    /// Today's date in the local time zone.
    pub fn today_local() -> (r: Result<Self, DateError>)
        ensures
            r is Ok ==> {
                let d = r->Ok_0;
                &&& is_romme_date(d.spec_year(), d.spec_month(), d.spec_day())
                &&& romme_offset(d.spec_year(), d.spec_month(), d.spec_day()) == d.spec_days()
            },
            r is Err ==> r == Err::<Self, DateError>(DateError::IndeterminateTimezone),
    {
        match now_local_julian_day() {
            Ok(today) => {
                let epoch = RommeDate::epoch();
                Ok(RommeDate::new(today - epoch))
            },
            Err(_) => Err(DateError::IndeterminateTimezone),
        }
    }

    /// The date of the Gregorian date (year, month, day).
    pub fn from_georgian_date(year: i32, month: u8, day: u8) -> (r: Result<Self, DateError>)
        ensures
            r is Ok <==> valid_gregorian(year as int, month as int, day as int),
            r is Ok ==> {
                let d = r->Ok_0;
                &&& d.spec_days() == gregorian_julian_day(year as int, month as int, day as int)
                    - epoch_julian_day()
                &&& is_romme_date(d.spec_year(), d.spec_month(), d.spec_day())
                &&& romme_offset(d.spec_year(), d.spec_month(), d.spec_day()) == d.spec_days()
            },
            r is Err ==> r == Err::<Self, DateError>(DateError::InvalidGeorgianCalendarDate),
    {
        let date = gregorian_to_julian_day(year, month, day)?;
        let epoch = RommeDate::epoch();
        Ok(RommeDate::new(date - epoch))
    }

    /// Julian Day Number of 1 Vendémiaire of year 1.
    fn epoch() -> (r: i32)
        ensures
            r == epoch_julian_day(),
            crate::gregorian::MIN_JULIAN_DAY <= r <= crate::gregorian::MAX_JULIAN_DAY,
    {
        let epoch = gregorian_to_julian_day(1792, 9, 22);
        assert(valid_gregorian(1792, 9, 22));
        epoch.unwrap()
    }

    /// Day offset of this date from 1 Vendémiaire of year 1.
    pub fn days(&self) -> (r: i32)
        ensures
            r == self.spec_days(),
            romme_offset(self.spec_year(), self.spec_month(), self.spec_day()) == r,
    {
        proof {
            use_type_invariant(self);
        }
        self.days
    }

    /// Whether `year` is a leap year under the Romme rule.
    pub fn leap_year(year: i32) -> (r: bool)
        ensures
            r == romme_leap(year as int),
    {
        let shifted = (year as i64 + YEAR_SHIFT) as u64;
        proof {
            lemma_fundamental_div_mod_converse(
                year as int,
                4,
                shifted as int / 4 - 100 * YEAR_SHIFT_CYCLES,
                shifted as int % 4,
            );
            lemma_fundamental_div_mod_converse(
                year as int,
                100,
                shifted as int / 100 - 4 * YEAR_SHIFT_CYCLES,
                shifted as int % 100,
            );
            lemma_fundamental_div_mod_converse(
                year as int,
                400,
                shifted as int / 400 - YEAR_SHIFT_CYCLES,
                shifted as int % 400,
            );
        }
        shifted % 4 == 0 && (shifted % 100 != 0 || shifted % 400 == 0)
    }

    /// Splits a day offset from 1 Vendémiaire of year 1 into (year, month, day).
    pub fn from_days(days: i32) -> (r: (i32, u8, u8))
        ensures
            is_romme_date(r.0 as int, r.1 as int, r.2 as int),
            romme_offset(r.0 as int, r.1 as int, r.2 as int) == days,
    {
        let shifted = (days as i64 + SHIFT_DAYS) as u64;

        // 400 years hold 97 leap days, 100 years 24 (at most), 4 years 1 (at most).
        let cycles = shifted / 146097;
        let mut rest = shifted - 146097 * cycles;

        let mut centuries = rest / 36524;
        assert(centuries < 4 ==> centuries >> 2 == 0) by (bit_vector);
        assert(centuries == 4 ==> centuries >> 2 == 1) by (bit_vector);
        centuries -= centuries >> 2;
        rest -= 36524 * centuries;

        let quads = rest / 1461;
        rest -= 1461 * quads;

        let mut years = rest / 365;
        assert(years < 4 ==> years >> 2 == 0) by (bit_vector);
        assert(years == 4 ==> years >> 2 == 1) by (bit_vector);
        years -= years >> 2;
        rest -= 365 * years;

        let year = 400 * (cycles as i64 - SHIFT_CYCLES) + (100 * centuries + 4 * quads
            + years) as i64 + 1;
        proof {
            lemma_blocks(
                days as int,
                cycles - SHIFT_CYCLES,
                centuries as int,
                quads as int,
                years as int,
                rest as int,
            );
        }
        let (month, day) = month_and_day(rest as u32);
        (year as i32, month, day)
    }

    /// The day offset from 1 Vendémiaire of year 1 of (year, month, day).
    pub fn to_days(year: i32, month: u8, day: u8) -> (r: Result<i32, DateError>)
        ensures
            r == romme_days_result(year as int, month as int, day as int),
    {
        let leap = RommeDate::leap_year(year);
        if !valid_month_day_exec(month, day, leap) {
            return Err(DateError::InvalidDate);
        }
        let p = year as i64 - 1;
        let shifted = (p + YEAR_SHIFT) as u64;
        let leaps = (shifted / 4 - shifted / 100 + shifted / 400) as i64 - 97 * YEAR_SHIFT_CYCLES;
        proof {
            lemma_fundamental_div_mod_converse(
                p as int,
                4,
                shifted as int / 4 - 100 * YEAR_SHIFT_CYCLES,
                shifted as int % 4,
            );
            lemma_fundamental_div_mod_converse(
                p as int,
                100,
                shifted as int / 100 - 4 * YEAR_SHIFT_CYCLES,
                shifted as int % 100,
            );
            lemma_fundamental_div_mod_converse(
                p as int,
                400,
                shifted as int / 400 - YEAR_SHIFT_CYCLES,
                shifted as int % 400,
            );
        }
        let offset = 365 * p + leaps + 30 * (month as i64 - 1) + day as i64 - 1;
        if offset < i32::MIN as i64 || offset > i32::MAX as i64 {
            Err(DateError::OutOfRange)
        } else {
            Ok(offset as i32)
        }
    }
}

impl FrcDate for RommeDate {
    closed spec fn spec_year(&self) -> int {
        self.year as int
    }

    closed spec fn spec_month(&self) -> int {
        self.month as int
    }

    closed spec fn spec_day(&self) -> int {
        self.day as int
    }

    open spec fn spec_leap(&self) -> bool {
        romme_leap(self.spec_year())
    }

    fn month_int(&self) -> (r: u8) {
        proof {
            use_type_invariant(self);
            assert(self.spec_leap() == romme_leap(self.year as int));
        }
        self.month
    }

    fn day(&self) -> (r: u8) {
        proof {
            use_type_invariant(self);
            assert(self.spec_leap() == romme_leap(self.year as int));
        }
        self.day
    }

    fn year(&self) -> (r: i32) {
        self.year
    }

    fn is_leap_year(&self) -> (r: bool) {
        RommeDate::leap_year(self.year)
    }
}

} // verus!
