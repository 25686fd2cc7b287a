//! The shape of a Republican year, shared by every leap-year rule: twelve
//! months of thirty days, then a thirteenth month of five complementary days,
//! six in a leap year.

use vstd::prelude::*;

verus! {

/// Number of complementary days closing a year.
pub open spec fn complementary_days(leap: bool) -> int {
    if leap {
        6
    } else {
        5
    }
}

/// Number of days in a year.
pub open spec fn year_length(leap: bool) -> int {
    360 + complementary_days(leap)
}

/// Whether `day` of `month` exists in a year whose leap status is `leap`.
pub open spec fn valid_month_day(month: int, day: int, leap: bool) -> bool {
    &&& 1 <= month <= 13
    &&& 1 <= day
    &&& if month <= 12 {
        day <= 30
    } else {
        day <= complementary_days(leap)
    }
}

/// Zero-based position of `day` of `month` within its year.
pub open spec fn day_index(month: int, day: int) -> int {
    30 * (month - 1) + day - 1
}

/// Strict lexicographic order on (year, month, day).
pub open spec fn date_lt(y1: int, m1: int, d1: int, y2: int, m2: int, d2: int) -> bool {
    ||| y1 < y2
    ||| y1 == y2 && m1 < m2
    ||| y1 == y2 && m1 == m2 && d1 < d2
}

/// A valid day lies within its year.
pub proof fn lemma_day_index_bounds(month: int, day: int, leap: bool)
    requires
        valid_month_day(month, day, leap),
    ensures
        0 <= day_index(month, day) < year_length(leap),
{
}

/// Within a year, positions follow the order of (month, day); in particular a
/// valid day is determined by its position.
pub proof fn lemma_day_index_order(m1: int, d1: int, m2: int, d2: int, leap: bool)
    requires
        valid_month_day(m1, d1, leap),
        valid_month_day(m2, d2, leap),
    ensures
        day_index(m1, d1) < day_index(m2, d2) <==> (m1 < m2 || (m1 == m2 && d1 < d2)),
        day_index(m1, d1) == day_index(m2, d2) <==> (m1 == m2 && d1 == d2),
{
}

/// Whether `day` of `month` exists in a year whose leap status is `leap`.
pub fn valid_month_day_exec(month: u8, day: u8, leap: bool) -> (r: bool)
    ensures
        r == valid_month_day(month as int, day as int, leap),
{
    if month < 1 || month > 13 || day < 1 {
        false
    } else if month <= 12 {
        day <= 30
    } else if leap {
        day <= 6
    } else {
        day <= 5
    }
}

/// One-based position of `day` of `month` within its year.
pub fn day_of_year(month: u8, day: u8) -> (r: u16)
    requires
        1 <= month <= 13,
        day <= 30,
    ensures
        r == day_index(month as int, day as int) + 1,
{
    let month = month as u16;
    (month - 1) * 30 + day as u16
}

/// Splits a zero-based position within a year into month and day.
pub fn month_and_day(index: u32) -> (r: (u8, u8))
    requires
        index <= 365,
    ensures
        day_index(r.0 as int, r.1 as int) == index,
        valid_month_day(r.0 as int, r.1 as int, true),
        valid_month_day(r.0 as int, r.1 as int, false) <==> index <= 364,
{
    let month = index / 30 + 1;
    let day = index % 30 + 1;
    (month as u8, day as u8)
}

} // verus!
