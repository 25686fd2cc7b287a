//! A leap-year table: for a run of consecutive years, whether each is a leap
//! year, with the running count of leap days before each. The flags are
//! supplied as ground truth (the equinox rule follows no arithmetic cycle);
//! the table is built once and only read afterwards.

use vstd::prelude::*;

use crate::calendar::{day_index, valid_month_day, year_length};
use crate::date::DateError;

verus! {

/// Leap years among the first `k` entries of `flags`.
pub open spec fn leaps_before(flags: Seq<bool>, k: int) -> int
    decreases k,
{
    if k <= 0 || k > flags.len() {
        0
    } else {
        leaps_before(flags, k - 1) + if flags[k - 1] {
            1int
        } else {
            0int
        }
    }
}

/// Julian Day Number of the first day of the `k`-th year of a table that
/// starts on `start_jdn`.
pub open spec fn table_year_start(start_jdn: int, flags: Seq<bool>, k: int) -> int {
    start_jdn + 365 * k + leaps_before(flags, k)
}

/// A run of leap years never holds more leap years than years.
pub proof fn lemma_leaps_before_bounds(flags: Seq<bool>, k: int)
    requires
        0 <= k <= flags.len(),
    ensures
        0 <= leaps_before(flags, k) <= k,
    decreases k,
{
    if k > 0 {
        lemma_leaps_before_bounds(flags, k - 1);
    }
}

/// Each year of a table starts where the one before it ends.
pub proof fn lemma_table_year_step(start_jdn: int, flags: Seq<bool>, k: int)
    requires
        0 <= k < flags.len(),
    ensures
        table_year_start(start_jdn, flags, k + 1) == table_year_start(start_jdn, flags, k)
            + year_length(flags[k]),
{
}

/// A later year of a table starts after an earlier one ends.
pub proof fn lemma_table_year_start_increasing(start_jdn: int, flags: Seq<bool>, j: int, k: int)
    requires
        0 <= j < k <= flags.len(),
    ensures
        table_year_start(start_jdn, flags, j) + year_length(flags[j]) <= table_year_start(
            start_jdn,
            flags,
            k,
        ),
    decreases k - j,
{
    lemma_table_year_step(start_jdn, flags, j);
    if j + 1 < k {
        lemma_table_year_start_increasing(start_jdn, flags, j + 1, k);
    }
}

/// Leap flags for consecutive years from `start_year`, whose first day is the
/// Julian Day `start_jdn`, with the leap days accrued before each year.
pub struct LeapYearTable {
    start_year: i32,
    start_jdn: i32,
    leap: Vec<bool>,
    leaps_to_date: Vec<u32>,
}

impl LeapYearTable {
    #[verifier::type_invariant]
    spec fn well_formed(self) -> bool {
        &&& self.leaps_to_date@.len() == self.leap@.len() + 1
        &&& forall|k: int|
            0 <= k <= self.leap@.len() ==> #[trigger] self.leaps_to_date@[k] == leaps_before(
                self.leap@,
                k,
            )
        &&& self.start_year + self.leap@.len() <= i32::MAX
        &&& table_year_start(self.start_jdn as int, self.leap@, self.leap@.len() as int)
            <= i32::MAX
    }

    /// The first year of the table.
    pub closed spec fn spec_start_year(&self) -> int {
        self.start_year as int
    }

    /// Julian Day Number of the first day of the first year.
    pub closed spec fn spec_start_jdn(&self) -> int {
        self.start_jdn as int
    }

    /// The leap flags, one per year from the first.
    pub closed spec fn spec_flags(&self) -> Seq<bool> {
        self.leap@
    }

    /// Number of years the table covers.
    pub open spec fn spec_len(&self) -> int {
        self.spec_flags().len() as int
    }

    /// Julian Day Number of the first day of the `k`-th year of the table.
    pub open spec fn year_start(&self, k: int) -> int {
        table_year_start(self.spec_start_jdn(), self.spec_flags(), k)
    }

    /// Whether the years of the table and their days are numbered within `i32`,
    /// as they are in every table that `new` builds.
    pub open spec fn fits_i32(&self) -> bool {
        &&& i32::MIN <= self.spec_start_year()
        &&& self.spec_start_year() + self.spec_len() <= i32::MAX
        &&& i32::MIN <= self.year_start(0)
        &&& self.year_start(self.spec_len()) <= i32::MAX
    }

    /// Whether `year` lies within the table.
    pub open spec fn covers_year(&self, year: int) -> bool {
        self.spec_start_year() <= year < self.spec_start_year() + self.spec_len()
    }

    /// Whether the day `jdn` lies within the years of the table.
    pub open spec fn covers_jdn(&self, jdn: int) -> bool {
        self.year_start(0) <= jdn < self.year_start(self.spec_len())
    }

    /// Whether `year`, which the table covers, is a leap year.
    pub open spec fn is_leap(&self, year: int) -> bool {
        self.spec_flags()[year - self.spec_start_year()]
    }

    /// Whether (year, month, day) is a date within the table.
    pub open spec fn is_date(&self, year: int, month: int, day: int) -> bool {
        self.covers_year(year) && valid_month_day(month, day, self.is_leap(year))
    }

    /// Julian Day Number of (year, month, day).
    pub open spec fn jdn_of(&self, year: int, month: int, day: int) -> int {
        self.year_start(year - self.spec_start_year()) + day_index(month, day)
    }

    /// Builds the table for the years from `start_year` on, one per flag, the
    /// first of which starts on Julian Day `start_jdn`. Fails when the last
    /// year, or the day after the last day, is beyond the range of `i32`.
    pub fn new(start_year: i32, start_jdn: i32, leap_flags: Vec<bool>) -> (r: Result<
        Self,
        DateError,
    >)
        ensures
            r is Ok <==> (start_year + leap_flags@.len() <= i32::MAX && table_year_start(
                start_jdn as int,
                leap_flags@,
                leap_flags@.len() as int,
            ) <= i32::MAX),
            r is Ok ==> {
                &&& r->Ok_0.spec_start_year() == start_year
                &&& r->Ok_0.spec_start_jdn() == start_jdn
                &&& r->Ok_0.spec_flags() == leap_flags@
            },
            r is Err ==> r == Err::<Self, DateError>(DateError::OutOfRange),
    {
        let n = leap_flags.len();
        let mut leaps_to_date: Vec<u32> = Vec::new();
        leaps_to_date.push(0);
        let mut count: u32 = 0;
        let mut i: usize = 0;
        while i < n
            invariant
                n == leap_flags@.len(),
                0 <= i <= n,
                leaps_to_date@.len() == i + 1,
                forall|k: int|
                    0 <= k <= i ==> #[trigger] leaps_to_date@[k] == leaps_before(leap_flags@, k),
                count == leaps_before(leap_flags@, i as int),
                start_year + i <= i32::MAX,
                table_year_start(start_jdn as int, leap_flags@, i as int) <= i32::MAX,
            decreases n - i,
        {
            proof {
                lemma_leaps_before_bounds(leap_flags@, i as int);
            }
            let next = if leap_flags[i] {
                count + 1
            } else {
                count
            };
            let end = start_jdn as i64 + 365 * (i as i64 + 1) + next as i64;
            if end > i32::MAX as i64 || start_year as i64 + i as i64 + 1 > i32::MAX as i64 {
                proof {
                    if i + 1 < n {
                        lemma_table_year_start_increasing(
                            start_jdn as int,
                            leap_flags@,
                            i + 1,
                            n as int,
                        );
                    }
                }
                return Err(DateError::OutOfRange);
            }
            count = next;
            leaps_to_date.push(count);
            i += 1;
        }
        Ok(LeapYearTable { start_year, start_jdn, leap: leap_flags, leaps_to_date })
    }

    /// The first year of the table.
    pub fn start_year(&self) -> (r: i32)
        ensures
            r == self.spec_start_year(),
            r + self.spec_len() <= i32::MAX,
    {
        proof {
            use_type_invariant(self);
        }
        self.start_year
    }

    /// Julian Day Number of the first day of the first year.
    pub fn start_jdn(&self) -> (r: i32)
        ensures
            r == self.spec_start_jdn(),
            self.year_start(self.spec_len()) <= i32::MAX,
            self.fits_i32(),
    {
        proof {
            use_type_invariant(self);
        }
        self.start_jdn
    }

    /// Number of years the table covers.
    pub fn len(&self) -> (r: usize)
        ensures
            r == self.spec_len(),
    {
        self.leap.len()
    }

    /// Leap days accrued in the first `k` years of the table.
    pub fn leaps_to_date(&self, k: usize) -> (r: u32)
        requires
            k <= self.spec_len(),
        ensures
            r == leaps_before(self.spec_flags(), k as int),
    {
        proof {
            use_type_invariant(self);
        }
        self.leaps_to_date[k]
    }

    /// Whether the `k`-th year of the table is a leap year.
    pub fn leap_at(&self, k: usize) -> (r: bool)
        requires
            k < self.spec_len(),
        ensures
            r == self.spec_flags()[k as int],
    {
        self.leap[k]
    }
}

} // verus!
