//! Republican dates under the equinox rule, converted to and from Julian Day
//! Numbers through a leap-year table.

use vstd::prelude::*;

use crate::calendar::{
    complementary_days, date_lt, lemma_day_index_bounds, lemma_day_index_order,
    month_and_day, valid_month_day, valid_month_day_exec,
};
use crate::date::{DateError, FrcDate};
use crate::gregorian::{
    gregorian_julian_day, gregorian_to_julian_day, now_local_julian_day, now_utc_julian_day,
    valid_gregorian,
};
use crate::table::{
    lemma_leaps_before_bounds, lemma_table_year_start_increasing, lemma_table_year_step,
    LeapYearTable,
};

verus! {

/// Julian Day Number.
pub type JDN = i32;

/// Whether (year, month, day) is the date of the day `jdn` under `table`.
pub open spec fn is_table_date_at(
    table: &LeapYearTable,
    jdn: int,
    year: int,
    month: int,
    day: int,
) -> bool {
    table.is_date(year, month, day) && table.jdn_of(year, month, day) == jdn
}

/// What converting a date to its Julian Day Number under `table` gives.
pub open spec fn table_jdn_result(table: &LeapYearTable, year: int, month: int, day: int) -> Result<
    JDN,
    DateError,
> {
    if !table.covers_year(year) {
        Err(DateError::OutOfRange)
    } else if !valid_month_day(month, day, table.is_leap(year)) {
        Err(DateError::InvalidDate)
    } else {
        Ok(table.jdn_of(year, month, day) as JDN)
    }
}

/// Every date within a table lies between the first day of the table and
/// the day after its last.
pub proof fn lemma_date_in_span(table: &LeapYearTable, year: int, month: int, day: int)
    requires
        table.is_date(year, month, day),
    ensures
        table.covers_jdn(table.jdn_of(year, month, day)),
{
    let k = year - table.spec_start_year();
    lemma_day_index_bounds(month, day, table.is_leap(year));
    lemma_leaps_before_bounds(table.spec_flags(), k);
    lemma_table_year_step(table.spec_start_jdn(), table.spec_flags(), k);
    if k + 1 < table.spec_len() {
        lemma_table_year_start_increasing(
            table.spec_start_jdn(),
            table.spec_flags(),
            k + 1,
            table.spec_len(),
        );
    }
}

/// Later days belong to later dates: between dates within a table, the
/// order of their Julian Day Numbers is the lexicographic order of
/// (year, month, day), and equal days belong to the same date.
pub proof fn lemma_jdn_order(
    table: &LeapYearTable,
    y1: int,
    m1: int,
    d1: int,
    y2: int,
    m2: int,
    d2: int,
)
    requires
        table.is_date(y1, m1, d1),
        table.is_date(y2, m2, d2),
    ensures
        table.jdn_of(y1, m1, d1) < table.jdn_of(y2, m2, d2) <==> date_lt(y1, m1, d1, y2, m2, d2),
        table.jdn_of(y1, m1, d1) == table.jdn_of(y2, m2, d2) <==> (y1 == y2 && m1 == m2 && d1
            == d2),
{
    let k1 = y1 - table.spec_start_year();
    let k2 = y2 - table.spec_start_year();
    lemma_day_index_bounds(m1, d1, table.is_leap(y1));
    lemma_day_index_bounds(m2, d2, table.is_leap(y2));
    if k1 < k2 {
        lemma_table_year_start_increasing(table.spec_start_jdn(), table.spec_flags(), k1, k2);
    } else if k2 < k1 {
        lemma_table_year_start_increasing(table.spec_start_jdn(), table.spec_flags(), k2, k1);
    } else {
        lemma_day_index_order(m1, d1, m2, d2, table.is_leap(y1));
    }
}

/// A date converted to its Julian Day Number and back is the same date: the
/// only (year, month, day) that `from_julian_day` may return for the day of a
/// date within the table is the date itself.
pub proof fn lemma_round_trip_date(
    table: &LeapYearTable,
    year: int,
    month: int,
    day: int,
    back: (i32, u8, u8),
)
    requires
        table.fits_i32(),
        table_jdn_result(table, year, month, day) is Ok,
        is_table_date_at(
            table,
            table_jdn_result(table, year, month, day)->Ok_0 as int,
            back.0 as int,
            back.1 as int,
            back.2 as int,
        ),
    ensures
        back.0 == year,
        back.1 == month,
        back.2 == day,
{
    lemma_date_in_span(table, year, month, day);
    lemma_jdn_order(table, year, month, day, back.0 as int, back.1 as int, back.2 as int);
}

/// A Julian Day Number converted to a date and back is the same day.
pub proof fn lemma_round_trip_jdn(table: &LeapYearTable, jdn: JDN, date: (i32, u8, u8))
    requires
        is_table_date_at(table, jdn as int, date.0 as int, date.1 as int, date.2 as int),
    ensures
        table_jdn_result(table, date.0 as int, date.1 as int, date.2 as int) == Ok::<
            JDN,
            DateError,
        >(jdn),
{
}

/// The complementary month of a year within a table has six days when the
/// table marks the year as a leap year and five otherwise: its last day is
/// followed by the first day of the next year.
pub proof fn lemma_complementary_days(table: &LeapYearTable, year: int)
    requires
        table.covers_year(year),
    ensures
        table.is_date(year, 13, 5),
        table.is_date(year, 13, 6) <==> table.is_leap(year),
        !table.is_date(year, 13, 7),
        table.year_start(year + 1 - table.spec_start_year()) == table.jdn_of(
            year,
            13,
            complementary_days(table.is_leap(year)),
        ) + 1,
{
    lemma_table_year_step(
        table.spec_start_jdn(),
        table.spec_flags(),
        year - table.spec_start_year(),
    );
}

/// A date under the equinox rule, with its Julian Day Number.
#[derive(Debug, Clone, Copy, PartialEq, Eq, Structural)]
pub struct QDate {
    jdn: JDN,
    year: i32,
    month: u8,
    day: u8,
    leap: bool,
}

impl QDate {
    #[verifier::type_invariant]
    spec fn well_formed(self) -> bool {
        valid_month_day(self.month as int, self.day as int, self.leap)
    }

    /// Julian Day Number of this date.
    pub closed spec fn spec_jdn(&self) -> int {
        self.jdn as int
    }

    /// Returns the Julian Day for this date
    pub fn jdn(&self) -> (r: JDN)
        ensures
            r == self.spec_jdn(),
    {
        self.jdn
    }

    /// The date of the day `jdn` under `table`.
    pub fn new(table: &LeapYearTable, jdn: JDN) -> (r: Result<Self, DateError>)
        ensures
            r is Ok <==> table.covers_jdn(jdn as int),
            r is Ok ==> {
                let q = r->Ok_0;
                &&& q.spec_jdn() == jdn
                &&& is_table_date_at(table, jdn as int, q.spec_year(), q.spec_month(), q.spec_day())
                &&& q.spec_leap() == table.is_leap(q.spec_year())
            },
            r is Err ==> r == Err::<Self, DateError>(DateError::OutOfRange),
    {
        let (year, month, day) = QDate::from_julian_day(table, jdn)?;
        let leap = table.leap_at((year as i64 - table.start_year() as i64) as usize);
        Ok(QDate { jdn, year, month, day, leap })
    }

    /// Splits the day `day` into (year, month, day) under `table`.
    pub fn from_julian_day(table: &LeapYearTable, day: JDN) -> (r: Result<(i32, u8, u8), DateError>)
        ensures
            r is Ok <==> table.covers_jdn(day as int),
            r is Ok ==> is_table_date_at(
                table,
                day as int,
                r->Ok_0.0 as int,
                r->Ok_0.1 as int,
                r->Ok_0.2 as int,
            ),
            r is Err ==> r == Err::<(i32, u8, u8), DateError>(DateError::OutOfRange),
    {
        let n = table.len();
        let start_jd = table.start_jdn() as i64;
        proof {
            lemma_leaps_before_bounds(table.spec_flags(), n as int);
        }
        if (day as i64) < start_jd || day as i64 >= start_jd + 365 * n as i64
            + table.leaps_to_date(n) as i64 {
            return Err(DateError::OutOfRange);
        }
        let mut low: usize = 0;
        let mut high: usize = n;
        // The first day of a year, start_jd + 365 * k + leaps before k, grows
        // with k: the year of `day` is the last whose first day is not after it.
        while low + 1 < high
            invariant
                n == table.spec_len(),
                start_jd == table.spec_start_jdn(),
                table.year_start(n as int) <= i32::MAX,
                i32::MIN <= start_jd,
                start_jd + 365 * n <= i32::MAX,
                0 <= low < high <= n,
                table.year_start(low as int) <= day < table.year_start(high as int),
            decreases high - low,
        {
            let mid = (low + high) / 2;
            proof {
                lemma_leaps_before_bounds(table.spec_flags(), mid as int);
            }
            if start_jd + 365 * mid as i64 + table.leaps_to_date(mid) as i64 <= day as i64 {
                low = mid;
            } else {
                high = mid;
            }
        }
        proof {
            lemma_leaps_before_bounds(table.spec_flags(), low as int);
            lemma_table_year_step(table.spec_start_jdn(), table.spec_flags(), low as int);
        }
        let dd = day as i64 - (start_jd + 365 * low as i64 + table.leaps_to_date(low) as i64);
        let year = table.start_year() + low as i32;
        let (month, day_of_month) = month_and_day(dd as u32);
        Ok((year, month, day_of_month))
    }

    /// The Julian Day Number of (year, month, day) under `table`.
    pub fn to_julian_day(table: &LeapYearTable, year: i32, month: u8, day: u8) -> (r: Result<
        JDN,
        DateError,
    >)
        ensures
            r == table_jdn_result(table, year as int, month as int, day as int),
    {
        let start_year = table.start_year();
        let n = table.len();
        if year < start_year || year as i64 - start_year as i64 >= n as i64 {
            return Err(DateError::OutOfRange);
        }
        let dy = (year as i64 - start_year as i64) as usize;
        if !valid_month_day_exec(month, day, table.leap_at(dy)) {
            return Err(DateError::InvalidDate);
        }
        proof {
            lemma_date_in_span(table, year as int, month as int, day as int);
            lemma_leaps_before_bounds(table.spec_flags(), dy as int);
        }
        let dd = (month as i32) * 30 + (day as i32) - 31;
        let jdn = table.start_jdn() as i64 + 365 * dy as i64 + table.leaps_to_date(dy) as i64
            + dd as i64;
        Ok(jdn as JDN)
    }

    /// Whether `year` is a leap year under `table`.
    pub fn leap_year(table: &LeapYearTable, year: i32) -> (r: Result<bool, DateError>)
        ensures
            r is Ok <==> table.covers_year(year as int),
            r is Ok ==> r->Ok_0 == table.is_leap(year as int),
            r is Err ==> r == Err::<bool, DateError>(DateError::OutOfRange),
    {
        let start_year = table.start_year();
        if year < start_year || year as i64 - start_year as i64 >= table.len() as i64 {
            return Err(DateError::OutOfRange);
        }
        Ok(table.leap_at((year as i64 - start_year as i64) as usize))
    }

    /// Today's date in UTC under `table`.
    pub fn today_utc(table: &LeapYearTable) -> (r: Result<Self, DateError>)
        ensures
            r is Ok ==> {
                let q = r->Ok_0;
                &&& is_table_date_at(
                    table,
                    q.spec_jdn(),
                    q.spec_year(),
                    q.spec_month(),
                    q.spec_day(),
                )
                &&& q.spec_leap() == table.is_leap(q.spec_year())
            },
            r is Err ==> r == Err::<Self, DateError>(DateError::OutOfRange),
    {
        QDate::new(table, now_utc_julian_day())
    }

    /// Today's date in the local time zone under `table`.
    pub fn today_local(table: &LeapYearTable) -> (r: Result<Self, DateError>)
        ensures
            r is Ok ==> {
                let q = r->Ok_0;
                &&& is_table_date_at(
                    table,
                    q.spec_jdn(),
                    q.spec_year(),
                    q.spec_month(),
                    q.spec_day(),
                )
                &&& q.spec_leap() == table.is_leap(q.spec_year())
            },
            r is Err ==> r == Err::<Self, DateError>(DateError::OutOfRange) || r == Err::<
                Self,
                DateError,
            >(DateError::IndeterminateTimezone),
    {
        match now_local_julian_day() {
            Ok(jdn) => QDate::new(table, jdn),
            Err(_) => Err(DateError::IndeterminateTimezone),
        }
    }

    /// The date under `table` of the Gregorian date (year, month, day).
    pub fn from_gregorian_date(table: &LeapYearTable, year: i32, month: u8, day: u8) -> (r: Result<
        Self,
        DateError,
    >)
        ensures
            !valid_gregorian(year as int, month as int, day as int) ==> r == Err::<
                Self,
                DateError,
            >(DateError::InvalidGeorgianCalendarDate),
            valid_gregorian(year as int, month as int, day as int) ==> {
                let jdn = gregorian_julian_day(year as int, month as int, day as int);
                &&& r is Ok <==> table.covers_jdn(jdn)
                &&& r is Ok ==> {
                    let q = r->Ok_0;
                    &&& q.spec_jdn() == jdn
                    &&& is_table_date_at(table, jdn, q.spec_year(), q.spec_month(), q.spec_day())
                    &&& q.spec_leap() == table.is_leap(q.spec_year())
                }
                &&& r is Err ==> r == Err::<Self, DateError>(DateError::OutOfRange)
            },
    {
        let jdn = gregorian_to_julian_day(year, month, day)?;
        QDate::new(table, jdn)
    }
}

impl FrcDate for QDate {
    closed spec fn spec_year(&self) -> int {
        self.year as int
    }

    closed spec fn spec_month(&self) -> int {
        self.month as int
    }

    closed spec fn spec_day(&self) -> int {
        self.day as int
    }

    closed spec fn spec_leap(&self) -> bool {
        self.leap
    }

    fn month_int(&self) -> (r: u8) {
        proof {
            use_type_invariant(self);
            assert(self.spec_leap() == self.leap);
        }
        self.month
    }

    fn day(&self) -> (r: u8) {
        proof {
            use_type_invariant(self);
            assert(self.spec_leap() == self.leap);
        }
        self.day
    }

    fn year(&self) -> (r: i32) {
        self.year
    }

    fn is_leap_year(&self) -> (r: bool) {
        self.leap
    }
}

} // verus!
