//! The catalogue of recurring German holidays and the rule that gives each one its date.
use crate::date::{
    day_number, is_valid, lemma_date_of_day, opt_view, shifted, weekday_of_day, ymd, Date, Ymd,
    MAX_YEAR, MIN_YEAR, WEDNESDAY,
};
use vstd::prelude::*;

verus! {

/// First year for which computus computes a Gregorian Easter Sunday.
pub const EASTER_FIRST_YEAR: i32 = 1583;

/// Last year for which computus computes a Gregorian Easter Sunday.
pub const EASTER_LAST_YEAR: i32 = 9999;

/// Month of the reference date from which the repentance day is counted back.
pub const REPENTANCE_REFERENCE_MONTH: u32 = 11;

/// Day of the reference date from which the repentance day is counted back.
pub const REPENTANCE_REFERENCE_DAY: u32 = 23;

/// Weekday index (Monday = 0) of a Thursday: from here on, the Wednesday before lies in the
/// same week.
pub const THURSDAY: u32 = 3;

/// Month and day of Easter Sunday in the Gregorian calendar, as computus computes them.
pub uninterp spec fn gregorian_easter(year: int) -> (int, int);

/// Relies on `computus::gregorian`: an error outside the years
/// `EASTER_FIRST_YEAR..=EASTER_LAST_YEAR`, otherwise Easter Sunday of that very year.
#[verifier::external_body]
fn easter_sunday(year: i32) -> (r: Option<(i32, u32, u32)>)
    ensures
        r is Some <==> EASTER_FIRST_YEAR <= year <= EASTER_LAST_YEAR,
        r matches Some(e) ==> e.0 == year && (e.1 as int, e.2 as int) == gregorian_easter(
            year as int,
        ),
{
    computus::gregorian(year).ok().map(|e| (e.year, e.month, e.day))
}

/// All reoccurring holidays in Germany.
/// This list contains both public and non-public holidays.
///
/// For public holidays use `GermanRegion` instead, since
/// public holidays differ from region to region.
#[derive(Clone, Copy, Debug, PartialEq, Eq, Structural)]
pub enum GermanHoliday {
    Neujahr,
    HeiligeDreiKoenige,
    Frauentag,
    Faschingsdienstag,
    Aschermittwoch,
    Gruendonnerstag,
    Karfreitag,
    Ostersonntag,
    Ostermontag,
    ErsterMai,
    ChristiHimmelfahrt,
    Pfingstsonntag,
    Pfingstmontag,
    Fronleichnam,
    AugsburgerFriedensfest,
    MariaeHimmelfahrt,
    Weltkindertag,
    TagDerDeutschenEinheit,
    Reformationstag,
    Allerheiligen,
    BussUndBettag,
    Heiligabend,
    ErsterWeihnachtsfeiertag,
    ZweiterWeihnachtsfeiertag,
    Silvester,
}

/// How the date of a holiday is found in a given year.
#[derive(Clone, Copy, Debug, PartialEq, Eq, Structural)]
pub enum DateRule {
    /// The same month and day every year.
    FixedDate { month: u32, day: u32 },
    /// A number of days after Easter Sunday (before it, for a negative number).
    EasterOffset { days: i32 },
    /// The Wednesday before the 23rd of November.
    RepentanceDay,
}

/// The date `n` days after `t`, if `t` is a valid date and a `Date` can hold the result.
pub open spec fn date_after(t: Ymd, n: int) -> Option<Ymd> {
    if is_valid(t) {
        shifted(t, n)
    } else {
        None
    }
}

/// Month `m`, day `d` of `year`, if that date exists.
pub open spec fn fixed_date(year: int, m: int, d: int) -> Option<Ymd> {
    if is_valid(ymd(year, m, d)) {
        Some(ymd(year, m, d))
    } else {
        None
    }
}

/// The date `n` days after Easter Sunday of `year`.
pub open spec fn easter_relative(year: int, n: int) -> Option<Ymd> {
    if EASTER_FIRST_YEAR <= year <= EASTER_LAST_YEAR {
        date_after(ymd(year, gregorian_easter(year).0, gregorian_easter(year).1), n)
    } else {
        None
    }
}

/// How many days the repentance day lies before a reference date with weekday index `w`.
pub open spec fn days_back_to_wednesday(w: int) -> int {
    if w < THURSDAY {
        w + 5
    } else {
        w - 2
    }
}

/// The repentance day of `year`: from the 23rd of November, with weekday index `w`, step back
/// `w + 5` days if `w < 3`, else `w - 2` days.
pub open spec fn repentance_day(year: int) -> Option<Ymd> {
    let reference = ymd(year, REPENTANCE_REFERENCE_MONTH as int, REPENTANCE_REFERENCE_DAY as int);
    if is_valid(reference) {
        shifted(reference, -days_back_to_wednesday(weekday_of_day(day_number(reference))))
    } else {
        None
    }
}

/// The date that `rule` gives in `year`.
pub open spec fn rule_date(rule: DateRule, year: int) -> Option<Ymd> {
    match rule {
        DateRule::FixedDate { month, day } => fixed_date(year, month as int, day as int),
        DateRule::EasterOffset { days } => easter_relative(year, days as int),
        DateRule::RepentanceDay => repentance_day(year),
    }
}

/// The rule of each holiday.
pub open spec fn date_rule(h: GermanHoliday) -> DateRule {
    match h {
        GermanHoliday::Neujahr => DateRule::FixedDate { month: 1, day: 1 },
        GermanHoliday::HeiligeDreiKoenige => DateRule::FixedDate { month: 1, day: 6 },
        GermanHoliday::Frauentag => DateRule::FixedDate { month: 3, day: 8 },
        GermanHoliday::Faschingsdienstag => DateRule::EasterOffset { days: -47i32 },
        GermanHoliday::Aschermittwoch => DateRule::EasterOffset { days: -46i32 },
        GermanHoliday::Gruendonnerstag => DateRule::EasterOffset { days: -3i32 },
        GermanHoliday::Karfreitag => DateRule::EasterOffset { days: -2i32 },
        GermanHoliday::Ostersonntag => DateRule::EasterOffset { days: 0 },
        GermanHoliday::Ostermontag => DateRule::EasterOffset { days: 1 },
        GermanHoliday::ErsterMai => DateRule::FixedDate { month: 5, day: 1 },
        GermanHoliday::ChristiHimmelfahrt => DateRule::EasterOffset { days: 39 },
        GermanHoliday::Pfingstsonntag => DateRule::EasterOffset { days: 49 },
        GermanHoliday::Pfingstmontag => DateRule::EasterOffset { days: 50 },
        GermanHoliday::Fronleichnam => DateRule::EasterOffset { days: 60 },
        GermanHoliday::AugsburgerFriedensfest => DateRule::FixedDate { month: 8, day: 8 },
        GermanHoliday::MariaeHimmelfahrt => DateRule::FixedDate { month: 8, day: 15 },
        GermanHoliday::Weltkindertag => DateRule::FixedDate { month: 9, day: 20 },
        GermanHoliday::TagDerDeutschenEinheit => DateRule::FixedDate { month: 10, day: 3 },
        GermanHoliday::Reformationstag => DateRule::FixedDate { month: 10, day: 31 },
        GermanHoliday::Allerheiligen => DateRule::FixedDate { month: 11, day: 1 },
        GermanHoliday::BussUndBettag => DateRule::RepentanceDay,
        GermanHoliday::Heiligabend => DateRule::FixedDate { month: 12, day: 24 },
        GermanHoliday::ErsterWeihnachtsfeiertag => DateRule::FixedDate { month: 12, day: 25 },
        GermanHoliday::ZweiterWeihnachtsfeiertag => DateRule::FixedDate { month: 12, day: 26 },
        GermanHoliday::Silvester => DateRule::FixedDate { month: 12, day: 31 },
    }
}

/// The date of holiday `h` in `year`.
pub open spec fn holiday_date(h: GermanHoliday, year: int) -> Option<Ymd> {
    rule_date(date_rule(h), year)
}

/// The label of each holiday.
pub open spec fn label(h: GermanHoliday) -> Seq<char> {
    match h {
        GermanHoliday::Neujahr => "Neujahr"@,
        GermanHoliday::HeiligeDreiKoenige => "Heilige Drei Könige"@,
        GermanHoliday::Frauentag => "Frauentag"@,
        GermanHoliday::Faschingsdienstag => "Faschingsdienstag"@,
        GermanHoliday::Aschermittwoch => "Aschermittwoch"@,
        GermanHoliday::Gruendonnerstag => "Gründonnerstag"@,
        GermanHoliday::Karfreitag => "Karfreitag"@,
        GermanHoliday::Ostersonntag => "Ostersonntag"@,
        GermanHoliday::Ostermontag => "Ostermontag"@,
        GermanHoliday::ErsterMai => "Erster Mai"@,
        GermanHoliday::ChristiHimmelfahrt => "Christi Himmelfahrt"@,
        GermanHoliday::Pfingstsonntag => "Pfingstsonntag"@,
        GermanHoliday::Pfingstmontag => "Pfingstmontag"@,
        GermanHoliday::Fronleichnam => "Fronleichnam"@,
        GermanHoliday::AugsburgerFriedensfest => "Augsburger Friedensfest"@,
        GermanHoliday::MariaeHimmelfahrt => "Mariä Himmelfahrt"@,
        GermanHoliday::Weltkindertag => "Weltkindertag"@,
        GermanHoliday::TagDerDeutschenEinheit => "Tag der Deutschen Einheit"@,
        GermanHoliday::Reformationstag => "Reformationstag"@,
        GermanHoliday::Allerheiligen => "Allerheiligen"@,
        GermanHoliday::BussUndBettag => "Buß- und Bettag"@,
        GermanHoliday::Heiligabend => "Heiligabend"@,
        GermanHoliday::ErsterWeihnachtsfeiertag => "Erster Weihnachtsfeiertag"@,
        GermanHoliday::ZweiterWeihnachtsfeiertag => "Zweiter Weihnachtsfeiertag"@,
        GermanHoliday::Silvester => "Silvester"@,
    }
}

impl GermanHoliday {
    /// The rule that gives the date of this holiday.
    pub fn rule(&self) -> (r: DateRule)
        ensures
            r == date_rule(*self),
    {
        match self {
            GermanHoliday::Neujahr => DateRule::FixedDate { month: 1, day: 1 },
            GermanHoliday::HeiligeDreiKoenige => DateRule::FixedDate { month: 1, day: 6 },
            GermanHoliday::Frauentag => DateRule::FixedDate { month: 3, day: 8 },
            GermanHoliday::Faschingsdienstag => DateRule::EasterOffset { days: -47 },
            GermanHoliday::Aschermittwoch => DateRule::EasterOffset { days: -46 },
            GermanHoliday::Gruendonnerstag => DateRule::EasterOffset { days: -3 },
            GermanHoliday::Karfreitag => DateRule::EasterOffset { days: -2 },
            GermanHoliday::Ostersonntag => DateRule::EasterOffset { days: 0 },
            GermanHoliday::Ostermontag => DateRule::EasterOffset { days: 1 },
            GermanHoliday::ErsterMai => DateRule::FixedDate { month: 5, day: 1 },
            GermanHoliday::ChristiHimmelfahrt => DateRule::EasterOffset { days: 39 },
            GermanHoliday::Pfingstsonntag => DateRule::EasterOffset { days: 49 },
            GermanHoliday::Pfingstmontag => DateRule::EasterOffset { days: 50 },
            GermanHoliday::Fronleichnam => DateRule::EasterOffset { days: 60 },
            GermanHoliday::AugsburgerFriedensfest => DateRule::FixedDate { month: 8, day: 8 },
            GermanHoliday::MariaeHimmelfahrt => DateRule::FixedDate { month: 8, day: 15 },
            GermanHoliday::Weltkindertag => DateRule::FixedDate { month: 9, day: 20 },
            GermanHoliday::TagDerDeutschenEinheit => DateRule::FixedDate { month: 10, day: 3 },
            GermanHoliday::Reformationstag => DateRule::FixedDate { month: 10, day: 31 },
            GermanHoliday::Allerheiligen => DateRule::FixedDate { month: 11, day: 1 },
            GermanHoliday::BussUndBettag => DateRule::RepentanceDay,
            GermanHoliday::Heiligabend => DateRule::FixedDate { month: 12, day: 24 },
            GermanHoliday::ErsterWeihnachtsfeiertag => DateRule::FixedDate { month: 12, day: 25 },
            GermanHoliday::ZweiterWeihnachtsfeiertag => DateRule::FixedDate { month: 12, day: 26 },
            GermanHoliday::Silvester => DateRule::FixedDate { month: 12, day: 31 },
        }
    }

    /// Calculates the date for a specific year.
    ///
    /// `None` if it cannot be calculated.
    pub fn date(&self, year: i32) -> (r: Option<Date>)
        ensures
            opt_view(r) == holiday_date(*self, year as int),
    {
        match self.rule() {
            DateRule::FixedDate { month, day } => Date::from_ymd_opt(year, month, day),
            DateRule::EasterOffset { days } => relative_to_easter_sunday(year, days),
            DateRule::RepentanceDay => bus_und_bettag(year),
        }
    }

    pub fn description(&self) -> (r: &'static str)
        ensures
            r@ == label(*self),
    {
        match self {
            GermanHoliday::Neujahr => "Neujahr",
            GermanHoliday::HeiligeDreiKoenige => "Heilige Drei Könige",
            GermanHoliday::Frauentag => "Frauentag",
            GermanHoliday::Faschingsdienstag => "Faschingsdienstag",
            GermanHoliday::Aschermittwoch => "Aschermittwoch",
            GermanHoliday::Gruendonnerstag => "Gründonnerstag",
            GermanHoliday::Karfreitag => "Karfreitag",
            GermanHoliday::Ostersonntag => "Ostersonntag",
            GermanHoliday::Ostermontag => "Ostermontag",
            GermanHoliday::ErsterMai => "Erster Mai",
            GermanHoliday::ChristiHimmelfahrt => "Christi Himmelfahrt",
            GermanHoliday::Pfingstsonntag => "Pfingstsonntag",
            GermanHoliday::Pfingstmontag => "Pfingstmontag",
            GermanHoliday::Fronleichnam => "Fronleichnam",
            GermanHoliday::AugsburgerFriedensfest => "Augsburger Friedensfest",
            GermanHoliday::MariaeHimmelfahrt => "Mariä Himmelfahrt",
            GermanHoliday::Weltkindertag => "Weltkindertag",
            GermanHoliday::TagDerDeutschenEinheit => "Tag der Deutschen Einheit",
            GermanHoliday::Reformationstag => "Reformationstag",
            GermanHoliday::Allerheiligen => "Allerheiligen",
            GermanHoliday::BussUndBettag => "Buß- und Bettag",
            GermanHoliday::Heiligabend => "Heiligabend",
            GermanHoliday::ErsterWeihnachtsfeiertag => "Erster Weihnachtsfeiertag",
            GermanHoliday::ZweiterWeihnachtsfeiertag => "Zweiter Weihnachtsfeiertag",
            GermanHoliday::Silvester => "Silvester",
        }
    }
}

/// The date `days_offset` days after the Easter Sunday `easter_year`-`easter_month`-`easter_day`;
/// `None` if that is no valid date, or if a `Date` cannot hold the result.
pub fn easter_relative_date(
    easter_year: i32,
    easter_month: u32,
    easter_day: u32,
    days_offset: i32,
) -> (r: Option<Date>)
    ensures
        opt_view(r) == date_after(
            ymd(easter_year as int, easter_month as int, easter_day as int),
            days_offset as int,
        ),
{
    match Date::from_ymd_opt(easter_year, easter_month, easter_day) {
        Some(easter) => easter.checked_add_days(days_offset),
        None => None,
    }
}

fn relative_to_easter_sunday(year: i32, days_offset: i32) -> (r: Option<Date>)
    ensures
        opt_view(r) == easter_relative(year as int, days_offset as int),
{
    match easter_sunday(year) {
        Some((y, m, d)) => easter_relative_date(y, m, d, days_offset),
        None => None,
    }
}

fn bus_und_bettag(year: i32) -> (r: Option<Date>)
    ensures
        opt_view(r) == repentance_day(year as int),
{
    match Date::from_ymd_opt(year, REPENTANCE_REFERENCE_MONTH, REPENTANCE_REFERENCE_DAY) {
        Some(reference) => {
            let weekday = reference.weekday_from_monday() as i32;
            let days_back = if weekday < THURSDAY as i32 {
                weekday + 5
            } else {
                weekday - 2
            };
            reference.checked_add_days(-days_back)
        },
        None => None,
    }
}

/// The repentance day of every year that a `Date` can hold exists, falls on a Wednesday, and lies
/// one to seven days before the 23rd of November.
pub proof fn lemma_repentance_day_is_wednesday_before_reference(year: int)
    requires
        MIN_YEAR <= year <= MAX_YEAR,
    ensures
        holiday_date(GermanHoliday::BussUndBettag, year) matches Some(d) && weekday_of_day(
            day_number(d),
        ) == WEDNESDAY && 1 <= day_number(
            ymd(year, REPENTANCE_REFERENCE_MONTH as int, REPENTANCE_REFERENCE_DAY as int),
        ) - day_number(d) <= 7,
{
    let reference = ymd(year, REPENTANCE_REFERENCE_MONTH as int, REPENTANCE_REFERENCE_DAY as int);
    let k = day_number(reference);
    let w = weekday_of_day(k);
    let back = days_back_to_wednesday(w);
    vstd::arithmetic::div_mod::lemma_fundamental_div_mod(k, 7);
    vstd::arithmetic::div_mod::lemma_mod_bound(k, 7);
    let q = k / 7;
    assert(1 <= back <= 7);
    let d = ymd(year, REPENTANCE_REFERENCE_MONTH as int, REPENTANCE_REFERENCE_DAY - back);
    assert(day_number(d) == k - back);
    lemma_date_of_day(d);
    assert(shifted(reference, -back) == Some(d));
    if w < THURSDAY {
        vstd::arithmetic::div_mod::lemma_fundamental_div_mod_converse(k - back, 7, q - 1, 2);
    } else {
        vstd::arithmetic::div_mod::lemma_fundamental_div_mod_converse(k - back, 7, q, 2);
    }
}

} // verus!
