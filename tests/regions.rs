use feiertage::GermanHoliday::{
    ChristiHimmelfahrt, ErsterMai, ErsterWeihnachtsfeiertag, Frauentag, Fronleichnam,
    HeiligeDreiKoenige, Karfreitag, MariaeHimmelfahrt, Neujahr, Ostermontag, Pfingstmontag,
    Reformationstag, TagDerDeutschenEinheit, Weltkindertag, ZweiterWeihnachtsfeiertag,
    Allerheiligen,
};
use feiertage::GermanRegion;
use feiertage::GermanRegion::{
    BadenWuerttemberg, Bayern, Berlin, Brandenburg, Bremen, Hamburg, Hessen,
    MechlenburgVorpommern, Niedersachsen, NordrheinWestfalen, RheinlandPfalz, Saarland, Sachsen,
    SachsenAnhalt, SchleswigHolstein, Thueringen,
};
use feiertage::{Date, DateExt};

const ALL_REGIONS: [GermanRegion; 16] = [
    BadenWuerttemberg,
    Bayern,
    Berlin,
    Brandenburg,
    Bremen,
    Hamburg,
    Hessen,
    MechlenburgVorpommern,
    Niedersachsen,
    NordrheinWestfalen,
    RheinlandPfalz,
    Saarland,
    Sachsen,
    SachsenAnhalt,
    SchleswigHolstein,
    Thueringen,
];

const NATIONAL: [feiertage::GermanHoliday; 9] = [
    Neujahr,
    Karfreitag,
    Ostermontag,
    ErsterMai,
    ChristiHimmelfahrt,
    Pfingstmontag,
    TagDerDeutschenEinheit,
    ErsterWeihnachtsfeiertag,
    ZweiterWeihnachtsfeiertag,
];

fn ymd(year: i32, month: u32, day: u32) -> Date {
    Date::from_ymd_opt(year, month, day).unwrap()
}

#[test]
fn neujahr_feiertag_in_bayern() {
    let date = ymd(2018, 01, 01);
    assert!(date.is_public_holiday_in(Bayern));
    assert_eq!(Some(Neujahr), date.public_holiday_in(Bayern));
}

#[test]
fn singular_example_holiday() {
    let date = ymd(2018, 1, 1);
    assert!(date.is_public_holiday_in(Bayern));
    assert_eq!(Some(Neujahr), date.public_holiday_in(Bayern));
}

#[test]
fn total_number_holidays() {
    let number_holidays = |region: GermanRegion| region.holidays_in_year(2019).len();
    assert_eq!(12, number_holidays(BadenWuerttemberg));
    assert_eq!(13, number_holidays(Bayern));
    assert_eq!(10, number_holidays(Berlin));
    assert_eq!(10, number_holidays(Brandenburg));
    assert_eq!(10, number_holidays(Bremen));
    assert_eq!(10, number_holidays(Hamburg));
    assert_eq!(10, number_holidays(Hessen));
    assert_eq!(10, number_holidays(MechlenburgVorpommern));
    assert_eq!(10, number_holidays(Niedersachsen));
    assert_eq!(11, number_holidays(NordrheinWestfalen));
    assert_eq!(11, number_holidays(RheinlandPfalz));
    assert_eq!(12, number_holidays(Saarland));
    assert_eq!(11, number_holidays(Sachsen));
    assert_eq!(11, number_holidays(SachsenAnhalt));
    assert_eq!(10, number_holidays(SchleswigHolstein));
    assert_eq!(11, number_holidays(Thueringen));
}

#[test]
fn total_number_holidays_since_2023() {
    for year in [2023, 2024, 2050, 2999, 9999, 100_000, i32::MAX] {
        let number_holidays = |region: GermanRegion| region.holidays_in_year(year).len();
        assert_eq!(12, number_holidays(BadenWuerttemberg));
        assert_eq!(13, number_holidays(Bayern));
        assert_eq!(10, number_holidays(Berlin));
        assert_eq!(10, number_holidays(Brandenburg));
        assert_eq!(10, number_holidays(Bremen));
        assert_eq!(10, number_holidays(Hamburg));
        assert_eq!(10, number_holidays(Hessen));
        assert_eq!(11, number_holidays(MechlenburgVorpommern));
        assert_eq!(10, number_holidays(Niedersachsen));
        assert_eq!(11, number_holidays(NordrheinWestfalen));
        assert_eq!(11, number_holidays(RheinlandPfalz));
        assert_eq!(12, number_holidays(Saarland));
        assert_eq!(11, number_holidays(Sachsen));
        assert_eq!(11, number_holidays(SachsenAnhalt));
        assert_eq!(10, number_holidays(SchleswigHolstein));
        assert_eq!(11, number_holidays(Thueringen));
    }
}

#[test]
fn frauntag_in_berlin_since_2019() {
    assert!(!Berlin.holidays_in_year(2018).contains(&Frauentag));
    assert_eq!(None, ymd(2018, 3, 8).public_holiday_in(Berlin));
    assert!(Berlin.holidays_in_year(2019).contains(&Frauentag));
    assert_eq!(Some(Frauentag), ymd(2019, 3, 8).public_holiday_in(Berlin));
}

#[test]
fn frauentag_in_berlin_since_2019() {
    assert!(!Berlin.holidays_in_year(2018).contains(&Frauentag));
    assert_eq!(None, ymd(2018, 3, 8).public_holiday_in(Berlin));
    assert!(Berlin.holidays_in_year(2019).contains(&Frauentag));
    assert_eq!(Some(Frauentag), ymd(2019, 3, 8).public_holiday_in(Berlin));
}

#[test]
fn only_provide_holidays_after_1995() {
    assert!(BadenWuerttemberg.holidays_in_year(1994).is_empty());
}

#[test]
fn no_holidays_in_any_region_before_1995() {
    for region in ALL_REGIONS {
        for year in [i32::MIN, -2999, 0, 1, 1583, 1900, 1990, 1994] {
            assert!(region.holidays_in_year(year).is_empty());
            assert!(region.holiday_dates_in_year(year).is_empty());
        }
    }
    assert!(!ymd(1994, 12, 25).is_public_holiday_in(Bayern));
    assert_eq!(None, ymd(1994, 1, 1).public_holiday_in(Berlin));
    assert!(ymd(1995, 1, 1).is_public_holiday_in(Berlin));
}

#[test]
fn every_region_observes_the_national_holidays() {
    for region in ALL_REGIONS {
        for year in [1995, 2000, 2017, 2019, 2023, 3000] {
            let holidays = region.holidays_in_year(year);
            for holiday in NATIONAL {
                assert!(holidays.contains(&holiday));
            }
        }
    }
}

#[test]
fn regional_holidays_of_bayern() {
    assert_eq!(
        vec![HeiligeDreiKoenige, Fronleichnam, MariaeHimmelfahrt, Allerheiligen],
        Bayern.region_specific_holidays(2019)
    );
    let mut expected = NATIONAL.to_vec();
    expected.extend([HeiligeDreiKoenige, Fronleichnam, MariaeHimmelfahrt, Allerheiligen]);
    assert_eq!(expected, Bayern.holidays_in_year(2019));
}

#[test]
fn reformationstag_everywhere_in_2017_only_once() {
    for region in ALL_REGIONS {
        let holidays = region.holidays_in_year(2017);
        assert_eq!(1, holidays.iter().filter(|h| **h == Reformationstag).count());
    }
    assert_eq!(14, Bayern.holidays_in_year(2017).len());
    assert_eq!(10, Brandenburg.holidays_in_year(2017).len());
    assert!(!Bayern.holidays_in_year(2016).contains(&Reformationstag));
    assert!(!Bayern.holidays_in_year(2018).contains(&Reformationstag));
    assert_eq!(Some(Reformationstag), ymd(2017, 10, 31).public_holiday_in(Hessen));
}

#[test]
fn legislative_boundaries() {
    assert!(!Bremen.holidays_in_year(2016).contains(&Reformationstag));
    assert!(Bremen.holidays_in_year(2018).contains(&Reformationstag));
    assert!(!Thueringen.holidays_in_year(2018).contains(&Weltkindertag));
    assert!(Thueringen.holidays_in_year(2019).contains(&Weltkindertag));
    assert!(!MechlenburgVorpommern.holidays_in_year(2022).contains(&Frauentag));
    assert!(MechlenburgVorpommern.holidays_in_year(2023).contains(&Frauentag));
    assert_eq!(Some(Weltkindertag), ymd(2019, 9, 20).public_holiday_in(Thueringen));
    assert_eq!(None, ymd(2018, 9, 20).public_holiday_in(Thueringen));
}

#[test]
fn holiday_dates_of_bayern_2019() {
    let expected = vec![
        (ymd(2019, 1, 1), Neujahr),
        (ymd(2019, 1, 6), HeiligeDreiKoenige),
        (ymd(2019, 4, 19), Karfreitag),
        (ymd(2019, 4, 22), Ostermontag),
        (ymd(2019, 5, 1), ErsterMai),
        (ymd(2019, 5, 30), ChristiHimmelfahrt),
        (ymd(2019, 6, 10), Pfingstmontag),
        (ymd(2019, 6, 20), Fronleichnam),
        (ymd(2019, 8, 15), MariaeHimmelfahrt),
        (ymd(2019, 10, 3), TagDerDeutschenEinheit),
        (ymd(2019, 11, 1), Allerheiligen),
        (ymd(2019, 12, 25), ErsterWeihnachtsfeiertag),
        (ymd(2019, 12, 26), ZweiterWeihnachtsfeiertag),
    ];
    assert_eq!(expected, Bayern.holiday_dates_in_year(2019));
}

#[test]
fn holiday_dates_are_strictly_increasing() {
    for region in ALL_REGIONS {
        for year in [1995, 2017, 2018, 2019, 2020, 2023, 2024, 2100] {
            let dates = region.holiday_dates_in_year(year);
            assert_eq!(region.holidays_in_year(year).len(), dates.len());
            for pair in dates.windows(2) {
                assert!(pair[0].0.is_before(&pair[1].0));
                assert!(pair[0].0 < pair[1].0);
            }
        }
    }
}

#[test]
fn ascension_day_on_may_day_keeps_both_in_order() {
    // Easter 2008 was on March 23, so Christi Himmelfahrt fell on May 1.
    let dates = Bayern.holiday_dates_in_year(2008);
    let may_day: Vec<_> = dates.iter().filter(|(d, _)| *d == ymd(2008, 5, 1)).collect();
    assert_eq!(vec![&(ymd(2008, 5, 1), ErsterMai), &(ymd(2008, 5, 1), ChristiHimmelfahrt)], may_day);
    for pair in dates.windows(2) {
        assert!(!pair[1].0.is_before(&pair[0].0));
    }
    assert_eq!(Some(ErsterMai), ymd(2008, 5, 1).public_holiday_in(Bayern));
    assert_eq!(Some(ErsterMai), Bayern.holiday_from_date(ymd(2008, 5, 1)));
}

#[test]
fn easter_based_holidays_are_dropped_outside_the_computus_range() {
    let dates = Bayern.holiday_dates_in_year(10_000);
    assert_eq!(13 - 5, dates.len());
    assert!(dates.iter().all(|(_, h)| *h != Karfreitag && *h != Fronleichnam));
    assert_eq!(Some((ymd(10_000, 1, 1), Neujahr)), dates.first().copied());
}

#[test]
fn queries_give_the_same_answer_twice() {
    for region in ALL_REGIONS {
        assert_eq!(region.holidays_in_year(2019), region.holidays_in_year(2019));
        assert_eq!(region.holiday_dates_in_year(2020), region.holiday_dates_in_year(2020));
        let date = ymd(2019, 11, 20);
        assert_eq!(region.holiday_from_date(date), region.holiday_from_date(date));
        assert_eq!(region.is_holiday(date), region.is_holiday(date));
    }
}

#[test]
fn is_holiday_agrees_with_holiday_from_date() {
    assert!(Sachsen.is_holiday(ymd(2019, 11, 20)));
    assert!(!Bayern.is_holiday(ymd(2019, 11, 20)));
    assert!(!Bayern.is_holiday(ymd(2019, 11, 21)));
    assert_eq!(Some(feiertage::GermanHoliday::BussUndBettag), Sachsen.holiday_from_date(ymd(2019, 11, 20)));
    assert_eq!(None, Berlin.holiday_from_date(ymd(2019, 7, 4)));
    assert_eq!(Some(Fronleichnam), Hessen.holiday_from_date(ymd(2019, 6, 20)));
}
