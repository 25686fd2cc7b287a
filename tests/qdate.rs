use fdate::month::Month;
use fdate::{DateError, FrcDate, LeapYearTable, QDate, RommeDate};

/// Leap flags of the years I to MMCDXCVIII under the equinox rule, one
/// character per year: each year begins on the day, reckoned in true solar
/// time at the Paris meridian, of the autumnal equinox, and a year is a leap
/// year when the next begins 366 days after it. Computed with Meeus's equinox
/// series and the Espenak-Meeus polynomials for Delta T; centuries from now
/// Delta T is uncertain by hours, so a few distant flags may differ from
/// other ephemerides.
const EQUINOX_LEAP_YEARS: [&str; 25] = [
    "0010001000100010000100010001000100010001000100010000100010001000100010001000100001000100010001000100",
    "0100010001000010001000100010001000100010000100010001000100010001000100010000100010001000100010001000",
    "1000100001000100010001000100010001000010001000100010001000100010001000010001000100010001000100010000",
    "1000100010001000100010001000010001000100010001000100010001000010001000100010001000100010001000010001",
    "0001000100010001000100001000100010001000100010001000100001000100010001000100010001000010001000100010",
    "0010001000100010000100010001000100010001000100001000100010001000100010001000100001000100010001000100",
    "0100010000100010001000100010001000100010000100010001000100010001000100001000100010001000100010001000",
    "0100010001000100010001000100010000100010001000100010001000100001000100010001000100010001000100001000",
    "1000100010001000100010000100010001000100010001000100010000100010001000100010001000100001000100010001",
    "0001000100010000100010001000100010001000100001000100010001000100010001000100001000100010001000100010",
    "0010000100010001000100010001000100010000100010001000100010001000100001000100010001000100010001000010",
    "0010001000100010001000100001000100010001000100010001000100001000100010001000100010001000010001000100",
    "0100010001000100001000100010001000100010001000100001000100010001000100010001000010001000100010001000",
    "1000100001000100010001000100010001000010001000100010001000100010001000010001000100010001000100010000",
    "1000100010001000100010001000010001000100010001000100010001000010001000100010001000100010000100010001",
    "0001000100010001000010001000100010001000100010000100010001000100010001000100001000100010001000100010",
    "0010001000010001000100010001000100010000100010001000100010001000100001000100010001000100010001000010",
    "0010001000100010001000100001000100010001000100010001000100001000100010001000100010001000010001000100",
    "0100010001000100001000100010001000100010001000010001000100010001000100010000100010001000100010001000",
    "1000010001000100010001000100010000100010001000100010001000100001000100010001000100010001000100001000",
    "1000100010001000100010000100010001000100010001000100001000100010001000100010001000010001000100010001",
    "0001000100001000100010001000100010001000010001000100010001000100010000100010001000100010001000100001",
    "0001000100010001000100010000100010001000100010001000100001000100010001000100010001000010001000100010",
    "0010001000100010000100010001000100010001000010001000100010001000100010001000010001000100010001000100",
    "01000010001000100010001000100010000100010001000100010001000100001000100010001000100010000100010001",
];

/// Julian Day Number of 1 Vendémiaire I, 22 September 1792.
const START_JD: i32 = 2375840;

fn equinox_table() -> LeapYearTable {
    let flags: Vec<bool> = EQUINOX_LEAP_YEARS
        .iter()
        .flat_map(|row| row.chars())
        .map(|c| c == '1')
        .collect();
    LeapYearTable::new(1, START_JD, flags).unwrap()
}

#[test]
fn julian_day_conversion() {
    let table = equinox_table();
    let dates = vec![
        (2375840, (1, 1, 1)),
        (2378444, (8, 2, 18)),
        (2416017, (111, 1, 1)),
        (2450715, (206, 1, 1)),
        (3284926, (2490, 1, 1)),
        (2416016, (110, 13, 6)),
        (2450714, (205, 13, 6)),
        (3284925, (2489, 13, 5)),
    ];

    for (jdn, frc_date) in dates {
        assert_eq!(QDate::from_julian_day(&table, jdn), Ok(frc_date));
    }
}

#[test]
fn date_to_jdn() {
    let table = equinox_table();
    let dates = vec![
        ((233, 2, 1), 2460606),
        ((1, 1, 1), 2375840),
        ((8, 2, 18), 2378444),
        ((111, 1, 1), 2416017),
        ((206, 1, 1), 2450715),
        ((2490, 1, 1), 3284926),
    ];

    for ((year, month, day), jdn) in dates {
        assert_eq!(QDate::to_julian_day(&table, year, month, day), Ok(jdn));
    }
}

#[test]
fn leap_years() {
    let table = equinox_table();
    let years = &[
        (1, false),
        (8, false),
        (3, true),
        (7, true),
        (11, true),
        (110, true),
        (205, true),
        (2489, false),
        (111, false),
        (206, false),
        (2490, true),
    ];

    for &(year, is_leap) in years {
        let res = QDate::leap_year(&table, year);
        assert_eq!(
            res,
            Ok(is_leap),
            "year {} was {:?} but should be {}",
            year,
            res,
            is_leap
        );
    }
}

#[test]
fn constructs_end_of_year_correctly() {
    let table = equinox_table();
    let leap_year_date = QDate::from_gregorian_date(&table, 1795, 9, 22).unwrap();

    assert_eq!(leap_year_date.month(), Month::Complementaires);
    assert_eq!(leap_year_date.year(), 3);
    assert_eq!(leap_year_date.day(), 6);
    assert_eq!(leap_year_date.day_of_year(), 366);
    assert!(leap_year_date.is_leap_year());

    let regular_date = QDate::from_gregorian_date(&table, 1793, 9, 21).unwrap();
    assert_eq!(regular_date.month(), Month::Complementaires);
    assert_eq!(regular_date.year(), 1);
    assert_eq!(regular_date.day(), 5);
    assert_eq!(regular_date.day_of_year(), 365);
    assert!(!regular_date.is_leap_year());
}

#[test]
fn date_properties() {
    let table = equinox_table();
    let date = QDate::new(&table, 2460606).unwrap();

    assert_eq!(date.month(), Month::Brumaire);
    assert_eq!(date.year(), 233);
    assert_eq!(date.day(), 1);
    assert_eq!(date.day_of_year(), 31);
}

#[test]
fn table_epoch_is_first_day() {
    let table = equinox_table();
    assert_eq!(QDate::to_julian_day(&table, 1, 1, 1), Ok(START_JD));
    assert_eq!(QDate::from_julian_day(&table, START_JD), Ok((1, 1, 1)));
    let date = QDate::from_gregorian_date(&table, 1792, 9, 22).unwrap();
    assert_eq!(date.jdn(), START_JD);
    assert_eq!((date.year(), date.month_int(), date.day()), (1, 1, 1));
}

#[test]
fn table_round_trip_over_many_days() {
    let table = equinox_table();
    let mut jdn = START_JD;
    let end = START_JD + 365 * 2497;
    while jdn < end {
        let (year, month, day) = QDate::from_julian_day(&table, jdn).unwrap();
        assert_eq!(QDate::to_julian_day(&table, year, month, day), Ok(jdn));
        jdn += 37;
    }
}

#[test]
fn table_dates_increase_with_days() {
    let table = equinox_table();
    let mut previous = QDate::from_julian_day(&table, START_JD).unwrap();
    for jdn in START_JD + 1..START_JD + 3000 {
        let next = QDate::from_julian_day(&table, jdn).unwrap();
        assert!(previous < next, "{:?} is not before {:?}", previous, next);
        previous = next;
    }
}

#[test]
fn table_complementary_month_length_follows_leap_flag() {
    let table = equinox_table();
    for year in 1..200 {
        let leap = QDate::leap_year(&table, year).unwrap();
        assert!(QDate::to_julian_day(&table, year, 13, 5).is_ok());
        assert_eq!(QDate::to_julian_day(&table, year, 13, 6).is_ok(), leap);
        assert_eq!(
            QDate::to_julian_day(&table, year, 13, 7),
            Err(DateError::InvalidDate)
        );
    }
}

#[test]
fn table_rejects_days_and_years_outside_its_span() {
    let table = equinox_table();
    assert_eq!(
        QDate::from_julian_day(&table, START_JD - 1),
        Err(DateError::OutOfRange)
    );
    assert_eq!(QDate::new(&table, START_JD - 1), Err(DateError::OutOfRange));
    assert_eq!(QDate::leap_year(&table, 0), Err(DateError::OutOfRange));
    assert_eq!(QDate::leap_year(&table, 2499), Err(DateError::OutOfRange));
    assert_eq!(
        QDate::to_julian_day(&table, 2499, 1, 1),
        Err(DateError::OutOfRange)
    );
    let after_last = QDate::to_julian_day(&table, 2498, 13, 5).unwrap() + 1;
    let leap_last = QDate::leap_year(&table, 2498).unwrap();
    let after_last = if leap_last { after_last + 1 } else { after_last };
    assert_eq!(
        QDate::from_julian_day(&table, after_last),
        Err(DateError::OutOfRange)
    );
    assert!(QDate::from_julian_day(&table, after_last - 1).is_ok());
}

#[test]
fn table_rejects_invalid_components() {
    let table = equinox_table();
    assert_eq!(QDate::to_julian_day(&table, 5, 0, 1), Err(DateError::InvalidDate));
    assert_eq!(QDate::to_julian_day(&table, 5, 14, 1), Err(DateError::InvalidDate));
    assert_eq!(QDate::to_julian_day(&table, 5, 3, 31), Err(DateError::InvalidDate));
    assert_eq!(QDate::to_julian_day(&table, 5, 3, 0), Err(DateError::InvalidDate));
    assert_eq!(QDate::to_julian_day(&table, 4, 13, 6), Err(DateError::InvalidDate));
}

#[test]
fn small_table_over_a_narrow_range() {
    let table = LeapYearTable::new(100, 1000, vec![false, true, false]).unwrap();
    assert_eq!(table.len(), 3);
    assert_eq!(table.start_year(), 100);
    assert_eq!(table.leaps_to_date(3), 1);
    assert_eq!(QDate::from_julian_day(&table, 1000), Ok((100, 1, 1)));
    assert_eq!(QDate::from_julian_day(&table, 1365), Ok((101, 1, 1)));
    assert_eq!(QDate::from_julian_day(&table, 1730), Ok((101, 13, 6)));
    assert_eq!(QDate::from_julian_day(&table, 1731), Ok((102, 1, 1)));
    assert_eq!(QDate::from_julian_day(&table, 2096), Err(DateError::OutOfRange));
    assert_eq!(QDate::to_julian_day(&table, 102, 13, 5), Ok(2095));
}

#[test]
fn empty_table_covers_nothing() {
    let table = LeapYearTable::new(1, START_JD, Vec::new()).unwrap();
    assert_eq!(table.len(), 0);
    assert_eq!(QDate::from_julian_day(&table, START_JD), Err(DateError::OutOfRange));
    assert_eq!(QDate::leap_year(&table, 1), Err(DateError::OutOfRange));
}

#[test]
fn table_that_does_not_fit_is_refused() {
    assert_eq!(
        LeapYearTable::new(1, i32::MAX - 400, vec![false, false]).err(),
        Some(DateError::OutOfRange)
    );
    assert_eq!(
        LeapYearTable::new(i32::MAX, 0, vec![false]).err(),
        Some(DateError::OutOfRange)
    );
    assert!(LeapYearTable::new(i32::MAX - 1, i32::MAX - 365, vec![false]).is_ok());
}

#[test]
fn invalid_gregorian_source_is_refused() {
    let table = equinox_table();
    assert_eq!(
        QDate::from_gregorian_date(&table, 2023, 2, 29),
        Err(DateError::InvalidGeorgianCalendarDate)
    );
    assert_eq!(
        QDate::from_gregorian_date(&table, 2023, 13, 1),
        Err(DateError::InvalidGeorgianCalendarDate)
    );
    assert_eq!(
        QDate::from_gregorian_date(&table, 2023, 0, 1),
        Err(DateError::InvalidGeorgianCalendarDate)
    );
    assert_eq!(
        QDate::from_gregorian_date(&table, 1700, 1, 1),
        Err(DateError::OutOfRange)
    );
    let date = QDate::from_gregorian_date(&table, 2024, 2, 29).unwrap();
    assert_eq!(date.jdn(), 2460370);
}

#[test]
fn today_lies_within_the_table() {
    let table = equinox_table();
    let today = QDate::today_utc(&table).unwrap();
    assert!(today.year() >= 233);
    assert_eq!(QDate::new(&table, today.jdn()), Ok(today));
}

#[test]
fn rules_disagree_on_year_three() {
    let table = equinox_table();
    assert_eq!(QDate::leap_year(&table, 3), Ok(true));
    assert!(!RommeDate::leap_year(3));
    assert!(QDate::to_julian_day(&table, 3, 13, 6).is_ok());
    assert_eq!(RommeDate::to_days(3, 13, 6), Err(DateError::InvalidDate));
}

#[test]
fn complementary_day_near_year_ccxxv_under_both_rules() {
    let table = equinox_table();
    // Day offset 81813 from 1 Vendémiaire I: the equinox table makes year
    // CCXXIV a common year, the Romme rule a leap year.
    assert_eq!(
        QDate::from_julian_day(&table, START_JD + 81813),
        Ok((224, 13, 5))
    );
    assert_eq!(RommeDate::from_days(81813), (224, 13, 6));
    assert_eq!(
        QDate::from_julian_day(&table, START_JD + 81810),
        Ok((224, 13, 2))
    );
    assert_eq!(RommeDate::from_days(81810), (224, 13, 3));
    assert_eq!(
        QDate::from_julian_day(&table, START_JD + 81814),
        Ok((225, 1, 1))
    );
    assert_eq!(RommeDate::from_days(81814), (225, 1, 1));
}
