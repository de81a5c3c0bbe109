use chrono::{Datelike, NaiveDate};
use feiertage::date::{MAX_YEAR, MIN_YEAR};
use feiertage::Date;

#[test]
fn from_ymd_opt_accepts_only_existing_days() {
    assert!(Date::from_ymd_opt(2019, 2, 29).is_none());
    assert!(Date::from_ymd_opt(2020, 2, 29).is_some());
    assert!(Date::from_ymd_opt(1900, 2, 29).is_none());
    assert!(Date::from_ymd_opt(2000, 2, 29).is_some());
    assert!(Date::from_ymd_opt(2019, 4, 31).is_none());
    assert!(Date::from_ymd_opt(2019, 0, 1).is_none());
    assert!(Date::from_ymd_opt(2019, 13, 1).is_none());
    assert!(Date::from_ymd_opt(2019, 1, 0).is_none());
    assert!(Date::from_ymd_opt(-4, 2, 29).is_some());
    assert!(Date::from_ymd_opt(MIN_YEAR, 1, 1).is_some());
    assert!(Date::from_ymd_opt(MAX_YEAR, 12, 31).is_some());
    assert!(Date::from_ymd_opt(MIN_YEAR - 1, 12, 31).is_none());
    assert!(Date::from_ymd_opt(MAX_YEAR + 1, 1, 1).is_none());
}

#[test]
fn fields_are_kept() {
    let d = Date::from_ymd_opt(2019, 11, 20).unwrap();
    assert_eq!((2019, 11, 20), (d.year(), d.month(), d.day()));
}

#[test]
fn weekdays() {
    assert_eq!(0, Date::from_ymd_opt(1, 1, 1).unwrap().weekday_from_monday());
    assert_eq!(3, Date::from_ymd_opt(1970, 1, 1).unwrap().weekday_from_monday());
    assert_eq!(2, Date::from_ymd_opt(2019, 11, 20).unwrap().weekday_from_monday());
    assert_eq!(6, Date::from_ymd_opt(2023, 1, 1).unwrap().weekday_from_monday());
    for (y, m, d) in [(-308, 3, 14), (1583, 1, 1), (2000, 2, 29), (9999, 12, 31)] {
        let expected = NaiveDate::from_ymd_opt(y, m, d).unwrap().weekday().num_days_from_monday();
        assert_eq!(expected, Date::from_ymd_opt(y, m, d).unwrap().weekday_from_monday());
    }
}

#[test]
fn adding_days() {
    let d = Date::from_ymd_opt(2020, 2, 28).unwrap();
    assert_eq!(Date::from_ymd_opt(2020, 2, 29), d.checked_add_days(1));
    assert_eq!(Date::from_ymd_opt(2020, 3, 1), d.checked_add_days(2));
    assert_eq!(Date::from_ymd_opt(2019, 12, 31), d.checked_add_days(-59));
    assert_eq!(Some(d), d.checked_add_days(0));
    let last = Date::from_ymd_opt(MAX_YEAR, 12, 31).unwrap();
    assert_eq!(None, last.checked_add_days(1));
    let first = Date::from_ymd_opt(MIN_YEAR, 1, 1).unwrap();
    assert_eq!(None, first.checked_add_days(-1));
    assert_eq!(None, first.checked_add_days(i32::MIN));
    assert_eq!(None, first.checked_add_days(i32::MAX));
}

#[test]
fn calendar_order() {
    let a = Date::from_ymd_opt(2019, 12, 31).unwrap();
    let b = Date::from_ymd_opt(2020, 1, 1).unwrap();
    let c = Date::from_ymd_opt(2020, 1, 2).unwrap();
    assert!(a.is_before(&b));
    assert!(b.is_before(&c));
    assert!(!b.is_before(&b));
    assert!(!c.is_before(&a));
}
