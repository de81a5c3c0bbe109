//! The federal states of Germany and the public holidays that each of them observes.
use crate::date::{opt_view, Date, Ymd};
use crate::dated::{
    dated_view, has_distinct_dates, insert_by_date_into, is_sorted_by_date, is_strictly_increasing,
    lemma_sort_distinct, lemma_sort_sorted, lemma_sorted_distinct_strictly_increasing, sort_by_date,
};
use crate::holidays::{holiday_date, GermanHoliday};
use vstd::prelude::*;

verus! {

/// First year for which public holidays are given; every earlier year has none.
pub const FIRST_YEAR: i32 = 1995;

/// The 500th anniversary of the Reformation, a public holiday in every region in this one year.
pub const REFORMATION_ANNIVERSARY: i32 = 2017;

/// From this year on, Bremen, Hamburg, Niedersachsen and Schleswig-Holstein observe the
/// Reformationstag.
pub const REFORMATIONSTAG_NORTH_SINCE: i32 = 2017;

/// From this year on, Berlin observes the Frauentag.
pub const FRAUENTAG_BERLIN_SINCE: i32 = 2019;

/// From this year on, Thüringen observes the Weltkindertag.
pub const WELTKINDERTAG_THUERINGEN_SINCE: i32 = 2019;

/// From this year on, Mecklenburg-Vorpommern observes the Frauentag.
pub const FRAUENTAG_MECKLENBURG_VORPOMMERN_SINCE: i32 = 2023;

/// Represents all regions and their public holidays within Germany.
///
/// Holidays guaranteed to take place on sundays, e.g. easter sunday, are excluded by default.
/// However, holidays with a fixed date can still fall on a sunday.
#[derive(Clone, Copy, Debug, PartialEq, Eq, Structural)]
pub enum GermanRegion {
    BadenWuerttemberg,
    /// * The Augsburger Friedensfest only applies to Augsburg.
    ///   It is excluded by default, but can be calculated via `GermanHoliday::AugsburgerFriedensfest`.
    /// * Mariä Himmelfahrt only applies to communities with a catholic majority.
    ///   Since this is the case in the majority of communities, it is included by default.
    Bayern,
    Berlin,
    Brandenburg,
    Bremen,
    Hamburg,
    Hessen,
    MechlenburgVorpommern,
    Niedersachsen,
    NordrheinWestfalen,
    RheinlandPfalz,
    Saarland,
    /// Fronleichnam applies only to a minority of communities and has been excluded by default.
    /// It can be manually calculated via `GermanHoliday::Fronleichnam`.
    Sachsen,
    SachsenAnhalt,
    SchleswigHolstein,
    /// Fronleichnam applies only to a minority of communities and has been excluded by default.
    /// It can be manually calculated via `GermanHoliday::Fronleichnam`.
    Thueringen,
}

/// The public holidays of every region, in every year from `FIRST_YEAR` on.
pub open spec fn national_holidays() -> Seq<GermanHoliday> {
    seq![
        GermanHoliday::Neujahr,
        GermanHoliday::Karfreitag,
        GermanHoliday::Ostermontag,
        GermanHoliday::ErsterMai,
        GermanHoliday::ChristiHimmelfahrt,
        GermanHoliday::Pfingstmontag,
        GermanHoliday::TagDerDeutschenEinheit,
        GermanHoliday::ErsterWeihnachtsfeiertag,
        GermanHoliday::ZweiterWeihnachtsfeiertag,
    ]
}

/// The public holidays that `region` observes in `year` besides the national ones.
pub open spec fn regional_holidays(region: GermanRegion, year: int) -> Seq<GermanHoliday> {
    match region {
        GermanRegion::BadenWuerttemberg => seq![
            GermanHoliday::HeiligeDreiKoenige,
            GermanHoliday::Fronleichnam,
            GermanHoliday::Allerheiligen,
        ],
        GermanRegion::Bayern => seq![
            GermanHoliday::HeiligeDreiKoenige,
            GermanHoliday::Fronleichnam,
            GermanHoliday::MariaeHimmelfahrt,
            GermanHoliday::Allerheiligen,
        ],
        GermanRegion::Berlin => if year >= FRAUENTAG_BERLIN_SINCE {
            seq![GermanHoliday::Frauentag]
        } else {
            seq![]
        },
        GermanRegion::Brandenburg => seq![GermanHoliday::Reformationstag],
        GermanRegion::Bremen | GermanRegion::Hamburg | GermanRegion::Niedersachsen
        | GermanRegion::SchleswigHolstein => if year >= REFORMATIONSTAG_NORTH_SINCE {
            seq![GermanHoliday::Reformationstag]
        } else {
            seq![]
        },
        GermanRegion::Hessen => seq![GermanHoliday::Fronleichnam],
        GermanRegion::MechlenburgVorpommern => if year >= FRAUENTAG_MECKLENBURG_VORPOMMERN_SINCE {
            seq![GermanHoliday::Frauentag, GermanHoliday::Reformationstag]
        } else {
            seq![GermanHoliday::Reformationstag]
        },
        GermanRegion::NordrheinWestfalen | GermanRegion::RheinlandPfalz => seq![
            GermanHoliday::Fronleichnam,
            GermanHoliday::Allerheiligen,
        ],
        GermanRegion::Saarland => seq![
            GermanHoliday::Fronleichnam,
            GermanHoliday::MariaeHimmelfahrt,
            GermanHoliday::Allerheiligen,
        ],
        GermanRegion::Sachsen => seq![GermanHoliday::Reformationstag, GermanHoliday::BussUndBettag],
        GermanRegion::SachsenAnhalt => seq![
            GermanHoliday::HeiligeDreiKoenige,
            GermanHoliday::Reformationstag,
        ],
        GermanRegion::Thueringen => if year >= WELTKINDERTAG_THUERINGEN_SINCE {
            seq![GermanHoliday::Weltkindertag, GermanHoliday::Reformationstag]
        } else {
            seq![GermanHoliday::Reformationstag]
        },
    }
}

/// The public holidays of `region` in `year`: none before `FIRST_YEAR`; otherwise the national
/// ones, then the regional ones, and in `REFORMATION_ANNIVERSARY` the Reformationstag where the
/// region does not observe it anyway.
pub open spec fn holidays_of_year(region: GermanRegion, year: int) -> Seq<GermanHoliday> {
    if year < FIRST_YEAR {
        seq![]
    } else {
        let base = national_holidays() + regional_holidays(region, year);
        if year == REFORMATION_ANNIVERSARY && !base.contains(GermanHoliday::Reformationstag) {
            base.push(GermanHoliday::Reformationstag)
        } else {
            base
        }
    }
}

/// The holidays of `hs` that have a date in `year`, each with that date, in the order of `hs`.
pub open spec fn dated(hs: Seq<GermanHoliday>, year: int) -> Seq<(Ymd, GermanHoliday)>
    decreases hs.len(),
{
    if hs.len() == 0 {
        seq![]
    } else {
        let rest = dated(hs.drop_last(), year);
        match holiday_date(hs.last(), year) {
            Some(d) => rest.push((d, hs.last())),
            None => rest,
        }
    }
}

/// The public holidays of `region` in `year` with their dates, in calendar order.
pub open spec fn holiday_dates_of_year(region: GermanRegion, year: int) -> Seq<
    (Ymd, GermanHoliday),
> {
    sort_by_date(dated(holidays_of_year(region, year), year))
}

/// The first holiday of `hs` whose date in `year` is `d`.
pub open spec fn first_on(hs: Seq<GermanHoliday>, year: int, d: Ymd) -> Option<GermanHoliday>
    decreases hs.len(),
{
    if hs.len() == 0 {
        None
    } else if holiday_date(hs[0], year) == Some(d) {
        Some(hs[0])
    } else {
        first_on(hs.drop_first(), year, d)
    }
}

/// The public holiday of `region` on date `d`: the first in `holidays_of_year` that falls on it.
pub open spec fn holiday_on(region: GermanRegion, d: Ymd) -> Option<GermanHoliday> {
    first_on(holidays_of_year(region, d.year), d.year, d)
}

impl GermanRegion {
    /// Returns all public holidays in the given year.
    /// Holidays guaranteed to take place on sundays, e.g. easter sunday, are excluded by default.
    ///
    /// For years before 1995 this list will be empty.
    pub fn holidays_in_year(&self, year: i32) -> (r: Vec<GermanHoliday>)
        ensures
            r@ == holidays_of_year(*self, year as int),
    {
        if year < FIRST_YEAR {
            return Vec::new();
        }
        let mut holidays = national_holiday_list();
        let mut regional = self.region_specific_holidays(year);
        holidays.append(&mut regional);
        if year == REFORMATION_ANNIVERSARY && !contains_holiday(&holidays, GermanHoliday::Reformationstag) {
            holidays.push(GermanHoliday::Reformationstag);
        }
        holidays
    }

    /// The public holidays that this region observes in `year` besides the national ones.
    pub fn region_specific_holidays(&self, year: i32) -> (r: Vec<GermanHoliday>)
        ensures
            r@ == regional_holidays(*self, year as int),
    {
        match self {
            GermanRegion::BadenWuerttemberg => vec![
                GermanHoliday::HeiligeDreiKoenige,
                GermanHoliday::Fronleichnam,
                GermanHoliday::Allerheiligen,
            ],
            GermanRegion::Bayern => vec![
                GermanHoliday::HeiligeDreiKoenige,
                GermanHoliday::Fronleichnam,
                GermanHoliday::MariaeHimmelfahrt,
                GermanHoliday::Allerheiligen,
            ],
            GermanRegion::Berlin => if year >= FRAUENTAG_BERLIN_SINCE {
                vec![GermanHoliday::Frauentag]
            } else {
                vec![]
            },
            GermanRegion::Brandenburg => vec![GermanHoliday::Reformationstag],
            GermanRegion::Bremen | GermanRegion::Hamburg | GermanRegion::Niedersachsen
            | GermanRegion::SchleswigHolstein => if year >= REFORMATIONSTAG_NORTH_SINCE {
                vec![GermanHoliday::Reformationstag]
            } else {
                vec![]
            },
            GermanRegion::Hessen => vec![GermanHoliday::Fronleichnam],
            GermanRegion::MechlenburgVorpommern => if year >= FRAUENTAG_MECKLENBURG_VORPOMMERN_SINCE {
                vec![GermanHoliday::Frauentag, GermanHoliday::Reformationstag]
            } else {
                vec![GermanHoliday::Reformationstag]
            },
            GermanRegion::NordrheinWestfalen | GermanRegion::RheinlandPfalz => vec![
                GermanHoliday::Fronleichnam,
                GermanHoliday::Allerheiligen,
            ],
            GermanRegion::Saarland => vec![
                GermanHoliday::Fronleichnam,
                GermanHoliday::MariaeHimmelfahrt,
                GermanHoliday::Allerheiligen,
            ],
            GermanRegion::Sachsen => vec![
                GermanHoliday::Reformationstag,
                GermanHoliday::BussUndBettag,
            ],
            GermanRegion::SachsenAnhalt => vec![
                GermanHoliday::HeiligeDreiKoenige,
                GermanHoliday::Reformationstag,
            ],
            GermanRegion::Thueringen => if year >= WELTKINDERTAG_THUERINGEN_SINCE {
                vec![GermanHoliday::Weltkindertag, GermanHoliday::Reformationstag]
            } else {
                vec![GermanHoliday::Reformationstag]
            },
        }
    }

    /// Returns all holidays and their dates in the given year.
    /// Holidays guaranteed to take place on sundays, e.g. easter sunday, are excluded by default.
    ///
    /// For years before 1995 this list will be empty.
    pub fn holiday_dates_in_year(&self, year: i32) -> (r: Vec<(Date, GermanHoliday)>)
        ensures
            dated_view(r@) == holiday_dates_of_year(*self, year as int),
    {
        let holidays = self.holidays_in_year(year);
        let mut holiday_dates: Vec<(Date, GermanHoliday)> = Vec::new();
        let mut i: usize = 0;
        while i < holidays.len()
            invariant
                i <= holidays@.len(),
                dated_view(holiday_dates@) == sort_by_date(
                    dated(holidays@.take(i as int), year as int),
                ),
            decreases holidays@.len() - i,
        {
            let holiday = holidays[i];
            let ghost before = dated(holidays@.take(i as int), year as int);
            assert(holidays@.take(i + 1).drop_last() =~= holidays@.take(i as int));
            assert(holidays@.take(i + 1).last() == holiday);
            match holiday.date(year) {
                Some(date) => {
                    assert(dated(holidays@.take(i + 1), year as int) == before.push((date@, holiday)));
                    assert(before.push((date@, holiday)).drop_last() =~= before);
                    insert_by_date_into(&mut holiday_dates, (date, holiday));
                },
                None => {
                    assert(dated(holidays@.take(i + 1), year as int) == before);
                },
            }
            i += 1;
        }
        assert(holidays@.take(holidays@.len() as int) =~= holidays@);
        holiday_dates
    }

    /// Checks if a given date is a public holiday in the specific region.
    ///
    /// Always `false` for dates before 1995.
    pub fn is_holiday(&self, date: Date) -> (r: bool)
        ensures
            r == holiday_on(*self, date@) is Some,
    {
        self.holiday_from_date(date).is_some()
    }

    /// Returns the holiday for a specific date if the date is a holiday in the specific region.
    ///
    /// Always `None` for dates before 1995.
    pub fn holiday_from_date(&self, date: Date) -> (r: Option<GermanHoliday>)
        ensures
            r == holiday_on(*self, date@),
    {
        let year = date.year();
        let holidays = self.holidays_in_year(year);
        let mut i: usize = 0;
        assert(holidays@.skip(0) =~= holidays@);
        while i < holidays.len()
            invariant
                i <= holidays@.len(),
                year == date@.year,
                holidays@ == holidays_of_year(*self, year as int),
                first_on(holidays@, year as int, date@) == first_on(
                    holidays@.skip(i as int),
                    year as int,
                    date@,
                ),
            decreases holidays@.len() - i,
        {
            let holiday = holidays[i];
            assert(holidays@.skip(i as int).drop_first() =~= holidays@.skip(i + 1));
            match holiday.date(year) {
                Some(d) => {
                    if d == date {
                        return Some(holiday);
                    }
                },
                None => {},
            }
            i += 1;
        }
        assert(holidays@.skip(i as int) =~= Seq::<GermanHoliday>::empty());
        None
    }
}

fn national_holiday_list() -> (r: Vec<GermanHoliday>)
    ensures
        r@ == national_holidays(),
{
    vec![
        GermanHoliday::Neujahr,
        GermanHoliday::Karfreitag,
        GermanHoliday::Ostermontag,
        GermanHoliday::ErsterMai,
        GermanHoliday::ChristiHimmelfahrt,
        GermanHoliday::Pfingstmontag,
        GermanHoliday::TagDerDeutschenEinheit,
        GermanHoliday::ErsterWeihnachtsfeiertag,
        GermanHoliday::ZweiterWeihnachtsfeiertag,
    ]
}

fn contains_holiday(holidays: &Vec<GermanHoliday>, holiday: GermanHoliday) -> (r: bool)
    ensures
        r == holidays@.contains(holiday),
{
    let mut i: usize = 0;
    while i < holidays.len()
        invariant
            i <= holidays@.len(),
            forall|j: int| 0 <= j < i ==> holidays@[j] != holiday,
        decreases holidays@.len() - i,
    {
        if holidays[i] == holiday {
            return true;
        }
        i += 1;
    }
    false
}

/// Before `FIRST_YEAR` no region has any public holiday.
pub proof fn lemma_no_holidays_before_first_year(region: GermanRegion, year: int)
    requires
        year < FIRST_YEAR,
    ensures
        holidays_of_year(region, year) == Seq::<GermanHoliday>::empty(),
        holiday_dates_of_year(region, year) == Seq::<(Ymd, GermanHoliday)>::empty(),
{
    assert(dated(Seq::<GermanHoliday>::empty(), year) == Seq::<(Ymd, GermanHoliday)>::empty());
}

/// From `FIRST_YEAR` on, every region observes every national holiday.
pub proof fn lemma_national_holidays_everywhere(region: GermanRegion, year: int)
    requires
        year >= FIRST_YEAR,
    ensures
        forall|h: GermanHoliday|
            national_holidays().contains(h) ==> #[trigger] holidays_of_year(region, year).contains(h),
{
    let base = national_holidays() + regional_holidays(region, year);
    assert forall|h: GermanHoliday|
        national_holidays().contains(h) implies #[trigger] holidays_of_year(region, year).contains(h) by {
        let i = choose|i: int| 0 <= i < national_holidays().len() && national_holidays()[i] == h;
        assert(base[i] == h);
        if year == REFORMATION_ANNIVERSARY && !base.contains(GermanHoliday::Reformationstag) {
            assert(base.push(GermanHoliday::Reformationstag)[i] == h);
        }
    }
}

/// The dated holidays of a region in a year come in calendar order: no date comes before the
/// date of an entry ahead of it. Where no two of the holidays fall on the same day, each date
/// comes strictly after the one before it.
pub proof fn lemma_holiday_dates_in_calendar_order(region: GermanRegion, year: int)
    ensures
        is_sorted_by_date(holiday_dates_of_year(region, year)),
        has_distinct_dates(dated(holidays_of_year(region, year), year)) ==> is_strictly_increasing(
            holiday_dates_of_year(region, year),
        ),
{
    let s = dated(holidays_of_year(region, year), year);
    lemma_sort_sorted(s);
    if has_distinct_dates(s) {
        lemma_sort_distinct(s);
        lemma_sorted_distinct_strictly_increasing(sort_by_date(s));
    }
}

/// Every query is a function of its inputs: two results that meet the contract of the same query
/// on the same inputs are equal. For the queries that state their result through a model (the
/// dated holidays of a year, the date of a holiday), the model determines the result.
pub proof fn lemma_queries_are_deterministic(
    region: GermanRegion,
    holiday: GermanHoliday,
    year: int,
    dates1: Seq<(Date, GermanHoliday)>,
    dates2: Seq<(Date, GermanHoliday)>,
    date1: Option<Date>,
    date2: Option<Date>,
)
    requires
        dated_view(dates1) == holiday_dates_of_year(region, year),
        dated_view(dates2) == holiday_dates_of_year(region, year),
        opt_view(date1) == holiday_date(holiday, year),
        opt_view(date2) == holiday_date(holiday, year),
    ensures
        dates1 == dates2,
        date1 == date2,
{
    assert(dates1.len() == dated_view(dates1).len());
    assert(dates2.len() == dated_view(dates2).len());
    assert forall|i: int| 0 <= i < dates1.len() implies dates1[i] == dates2[i] by {
        assert(dated_view(dates1)[i] == dated_view(dates2)[i]);
    }
    assert(dates1 =~= dates2);
}

} // verus!
