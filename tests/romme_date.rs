use fdate::gregorian::gregorian_to_julian_day;
use fdate::{DateError, FrcDate, RommeDate};

#[test]
fn romme_date_day_conversion() {
    let dates = vec![
        (0, (1, 1, 1)),
        (2603, (8, 2, 18)),
        (673, (2, 11, 9)),
        (81814, (225, 1, 1)),
        (81850, (225, 2, 7)),
        (82215, (226, 2, 7)),
        (82580, (227, 2, 7)),
        (81813, (224, 13, 6)),
        (81810, (224, 13, 3)),
        (82178, (225, 13, 5)),
        (82179, (226, 1, 1)),
        (84789, (233, 2, 24)),
    ];

    for (days, expected) in dates {
        let result = RommeDate::from_days(days);

        assert_eq!(
            result, expected,
            "Expected {:?} for {:?} days but got {:?}",
            expected, days, result
        );
    }
}

#[test]
fn romme_epoch_is_offset_zero() {
    assert_eq!(RommeDate::to_days(1, 1, 1), Ok(0));
    assert_eq!(RommeDate::from_days(0), (1, 1, 1));
    let date = RommeDate::from_georgian_date(1792, 9, 22).unwrap();
    assert_eq!(date.days(), 0);
    assert_eq!((date.year(), date.month_int(), date.day()), (1, 1, 1));
}

#[test]
fn romme_round_trip() {
    let mut days: i64 = i32::MIN as i64;
    while days <= i32::MAX as i64 {
        let d = days as i32;
        let (year, month, day) = RommeDate::from_days(d);
        assert_eq!(RommeDate::to_days(year, month, day), Ok(d));
        days += 65_537;
    }
    for d in -3000..3000 {
        let (year, month, day) = RommeDate::from_days(d);
        assert_eq!(RommeDate::to_days(year, month, day), Ok(d));
    }
    let (year, month, day) = RommeDate::from_days(i32::MAX);
    assert_eq!(RommeDate::to_days(year, month, day), Ok(i32::MAX));
    let (year, month, day) = RommeDate::from_days(i32::MIN);
    assert_eq!(RommeDate::to_days(year, month, day), Ok(i32::MIN));
}

#[test]
fn romme_dates_increase_with_offsets() {
    let mut previous = RommeDate::from_days(-2000);
    for d in -1999..150_000 {
        let next = RommeDate::from_days(d);
        assert!(previous < next, "{:?} is not before {:?}", previous, next);
        previous = next;
    }
}

#[test]
fn romme_leap_years() {
    assert!(RommeDate::leap_year(4));
    assert!(!RommeDate::leap_year(3));
    assert!(!RommeDate::leap_year(100));
    assert!(RommeDate::leap_year(400));
    assert!(RommeDate::leap_year(0));
    assert!(RommeDate::leap_year(-4));
    assert!(!RommeDate::leap_year(-100));
    assert!(!RommeDate::leap_year(-1));
    assert!(RommeDate::leap_year(224));
}

#[test]
fn romme_complementary_month_length() {
    for year in -50..500 {
        let leap = RommeDate::leap_year(year);
        let last = if leap { 6 } else { 5 };
        let end = RommeDate::to_days(year, 13, last).unwrap();
        assert_eq!(RommeDate::from_days(end + 1), (year + 1, 1, 1));
        assert_eq!(RommeDate::to_days(year, 13, 6).is_ok(), leap);
        assert_eq!(RommeDate::to_days(year, 13, 7), Err(DateError::InvalidDate));
    }
    assert_eq!(RommeDate::from_days(1460), (4, 13, 6));
    assert_eq!(RommeDate::from_days(1095 - 1), (3, 13, 5));
    assert_eq!(RommeDate::from_days(36524 - 1), (100, 13, 5));
    assert_eq!(RommeDate::from_days(146097 - 1), (400, 13, 6));
}

#[test]
fn romme_before_the_epoch() {
    assert_eq!(RommeDate::from_days(-1), (0, 13, 6));
    assert_eq!(RommeDate::from_days(-366), (0, 1, 1));
    assert_eq!(RommeDate::from_days(-367), (-1, 13, 5));
    assert_eq!(RommeDate::to_days(0, 1, 1), Ok(-366));
}

#[test]
fn romme_rejects_invalid_components() {
    assert_eq!(RommeDate::to_days(5, 0, 1), Err(DateError::InvalidDate));
    assert_eq!(RommeDate::to_days(5, 14, 1), Err(DateError::InvalidDate));
    assert_eq!(RommeDate::to_days(5, 12, 31), Err(DateError::InvalidDate));
    assert_eq!(RommeDate::to_days(5, 12, 0), Err(DateError::InvalidDate));
    assert_eq!(RommeDate::to_days(5, 13, 6), Err(DateError::InvalidDate));
    assert_eq!(RommeDate::to_days(i32::MAX, 1, 1), Err(DateError::OutOfRange));
    assert_eq!(RommeDate::to_days(i32::MIN, 1, 1), Err(DateError::OutOfRange));
}

#[test]
fn romme_from_gregorian_dates() {
    let date = RommeDate::from_georgian_date(2024, 10, 22).unwrap();
    assert_eq!(date.days(), 84766);
    assert_eq!((date.year(), date.month_int(), date.day()), (233, 2, 1));
    assert!(!date.is_leap_year());
    assert_eq!(
        RommeDate::from_georgian_date(2023, 2, 29),
        Err(DateError::InvalidGeorgianCalendarDate)
    );
    assert_eq!(
        RommeDate::from_georgian_date(10000, 1, 1),
        Err(DateError::InvalidGeorgianCalendarDate)
    );
    let before = RommeDate::from_georgian_date(1792, 9, 21).unwrap();
    assert_eq!(before.days(), -1);
}

#[test]
fn romme_today() {
    let today = RommeDate::today_utc();
    assert!(today.year() >= 233);
    assert_eq!(RommeDate::new(today.days()), today);
}

#[test]
fn gregorian_julian_days() {
    assert_eq!(gregorian_to_julian_day(2000, 1, 1), Ok(2451545));
    assert_eq!(gregorian_to_julian_day(-4713, 11, 24), Ok(0));
    assert_eq!(gregorian_to_julian_day(2019, 12, 31), Ok(2458849));
    assert_eq!(gregorian_to_julian_day(1792, 9, 22), Ok(2375840));
    assert_eq!(gregorian_to_julian_day(-9999, 1, 1), Ok(-1930999));
    assert_eq!(gregorian_to_julian_day(9999, 12, 31), Ok(5373484));
    assert_eq!(
        gregorian_to_julian_day(2023, 4, 31),
        Err(DateError::InvalidGeorgianCalendarDate)
    );
    assert_eq!(
        gregorian_to_julian_day(1900, 2, 29),
        Err(DateError::InvalidGeorgianCalendarDate)
    );
    assert_eq!(
        gregorian_to_julian_day(2000, 1, 0),
        Err(DateError::InvalidGeorgianCalendarDate)
    );
}
