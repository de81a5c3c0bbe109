//! Calendar dates of the proleptic Gregorian calendar, in the range that chrono's `NaiveDate`
//! can hold.
//!
//! A `Date` is modelled by its year, month and day (`Ymd`). Date arithmetic goes through the
//! day number: the count of days since 0001-01-01, a Monday.
use chrono::{Datelike, NaiveDate, TimeDelta};
use vstd::prelude::*;

verus! {

/// Earliest year that a `Date` can hold.
pub const MIN_YEAR: i32 = -262143;

/// Latest year that a `Date` can hold.
pub const MAX_YEAR: i32 = 262142;

/// A calendar date as plain numbers: the model of `Date`.
pub struct Ymd {
    pub year: int,
    pub month: int,
    pub day: int,
}

pub open spec fn ymd(year: int, month: int, day: int) -> Ymd {
    Ymd { year, month, day }
}

pub open spec fn is_leap_year(y: int) -> bool {
    y % 4 == 0 && (y % 100 != 0 || y % 400 == 0)
}

pub open spec fn days_in_month(y: int, m: int) -> int {
    if m == 2 {
        if is_leap_year(y) {
            29
        } else {
            28
        }
    } else if m == 4 || m == 6 || m == 9 || m == 11 {
        30
    } else {
        31
    }
}

/// A day that exists in the calendar, in a year that `Date` can hold.
pub open spec fn is_valid(t: Ymd) -> bool {
    &&& MIN_YEAR <= t.year <= MAX_YEAR
    &&& 1 <= t.month <= 12
    &&& 1 <= t.day <= days_in_month(t.year, t.month)
}

/// Days from 0001-01-01 to the first of January of year `y`.
pub open spec fn days_before_year(y: int) -> int {
    let p = y - 1;
    365 * p + p / 4 - p / 100 + p / 400
}

/// Days from the first of January of year `y` to the first day of month `m`.
pub open spec fn days_before_month(y: int, m: int) -> int {
    let common: int = if m <= 1 {
        0
    } else if m == 2 {
        31
    } else if m == 3 {
        59
    } else if m == 4 {
        90
    } else if m == 5 {
        120
    } else if m == 6 {
        151
    } else if m == 7 {
        181
    } else if m == 8 {
        212
    } else if m == 9 {
        243
    } else if m == 10 {
        273
    } else if m == 11 {
        304
    } else {
        334
    };
    if m > 2 && is_leap_year(y) {
        common + 1
    } else {
        common
    }
}

/// The number of days from 0001-01-01 (day 0) to `t`.
pub open spec fn day_number(t: Ymd) -> int {
    days_before_year(t.year) + days_before_month(t.year, t.month) + t.day - 1
}

/// The day of the week of day number `k`, counted from Monday (0) to Sunday (6).
pub open spec fn weekday_of_day(k: int) -> int {
    k % 7
}

/// The weekday index of a Wednesday.
pub const WEDNESDAY: u32 = 2;

/// Day number of the earliest date that a `Date` can hold.
pub open spec fn first_day() -> int {
    day_number(ymd(MIN_YEAR as int, 1, 1))
}

/// Day number of the latest date that a `Date` can hold.
pub open spec fn last_day() -> int {
    day_number(ymd(MAX_YEAR as int, 12, 31))
}

/// The date with day number `k`; it exists and is unique for `first_day() <= k <= last_day()`.
pub open spec fn date_of_day(k: int) -> Ymd {
    choose|t: Ymd| is_valid(t) && day_number(t) == k
}

/// The date `n` days after `t` (before it for negative `n`), if a `Date` can hold it.
pub open spec fn shifted(t: Ymd, n: int) -> Option<Ymd> {
    let k = day_number(t) + n;
    if first_day() <= k <= last_day() {
        Some(date_of_day(k))
    } else {
        None
    }
}

/// `a` comes before `b` in the calendar.
pub open spec fn is_before(a: Ymd, b: Ymd) -> bool {
    ||| a.year < b.year
    ||| a.year == b.year && a.month < b.month
    ||| a.year == b.year && a.month == b.month && a.day < b.day
}

/// A calendar date with a year in `MIN_YEAR..=MAX_YEAR`.
#[derive(Clone, Copy, Debug, PartialEq, Eq, Structural, Hash, PartialOrd, Ord)]
pub struct Date {
    pub(crate) year: i32,
    pub(crate) month: u32,
    pub(crate) day: u32,
}

impl View for Date {
    type V = Ymd;

    open(crate) spec fn view(&self) -> Ymd {
        ymd(self.year as int, self.month as int, self.day as int)
    }
}

/// The model of an optional date.
pub open spec fn opt_view(d: Option<Date>) -> Option<Ymd> {
    match d {
        Some(d) => Some(d@),
        None => None,
    }
}

impl Date {
    #[verifier::type_invariant]
    spec fn inv(self) -> bool {
        is_valid(self@)
    }

    /// The date with the given year, month and day; `None` if that day does not exist or its
    /// year is outside `MIN_YEAR..=MAX_YEAR`.
    pub fn from_ymd_opt(year: i32, month: u32, day: u32) -> (r: Option<Date>)
        ensures
            r is Some <==> is_valid(ymd(year as int, month as int, day as int)),
            r matches Some(d) ==> d@ == ymd(year as int, month as int, day as int),
    {
        if exists_in_calendar(year, month, day) {
            Some(Date { year, month, day })
        } else {
            None
        }
    }

    pub fn year(&self) -> (r: i32)
        ensures
            r == self@.year,
    {
        self.year
    }

    pub fn month(&self) -> (r: u32)
        ensures
            r == self@.month,
    {
        self.month
    }

    pub fn day(&self) -> (r: u32)
        ensures
            r == self@.day,
    {
        self.day
    }

    /// The day of the week, counted from Monday (0) to Sunday (6).
    pub fn weekday_from_monday(&self) -> (r: u32)
        ensures
            r == weekday_of_day(day_number(self@)),
            r < 7,
    {
        proof {
            use_type_invariant(self);
        }
        weekday_index(self.year, self.month, self.day)
    }

    /// The date `days` days later (earlier for a negative count); `None` if a `Date` cannot
    /// hold it.
    pub fn checked_add_days(&self, days: i32) -> (r: Option<Date>)
        ensures
            opt_view(r) == shifted(self@, days as int),
    {
        proof {
            use_type_invariant(self);
        }
        match add_days_to(self.year, self.month, self.day, days) {
            Some((y, m, d)) => {
                let r = Date { year: y, month: m, day: d };
                proof {
                    lemma_date_of_day(r@);
                }
                Some(r)
            },
            None => None,
        }
    }

    /// `self` comes before `other` in the calendar.
    pub fn is_before(&self, other: &Date) -> (r: bool)
        ensures
            r == is_before(self@, other@),
    {
        self.year < other.year || (self.year == other.year && (self.month < other.month || (
        self.month == other.month && self.day < other.day)))
    }
}

/// Relies on chrono's `NaiveDate::from_ymd_opt`: it returns `Some` exactly for a day that exists
/// in the calendar, in a year within chrono's range `MIN_YEAR..=MAX_YEAR`.
#[verifier::external_body]
fn exists_in_calendar(year: i32, month: u32, day: u32) -> (r: bool)
    ensures
        r == is_valid(ymd(year as int, month as int, day as int)),
{
    NaiveDate::from_ymd_opt(year, month, day).is_some()
}

/// Relies on chrono's `Datelike::weekday` of a `NaiveDate` and `Weekday::num_days_from_monday`:
/// 0001-01-01 is a Monday, and the weekday advances by one each day.
#[verifier::external_body]
fn weekday_index(year: i32, month: u32, day: u32) -> (r: u32)
    requires
        is_valid(ymd(year as int, month as int, day as int)),
    ensures
        r == weekday_of_day(day_number(ymd(year as int, month as int, day as int))),
{
    NaiveDate::from_ymd_opt(year, month, day).unwrap().weekday().num_days_from_monday()
}

/// Relies on chrono's `NaiveDate::checked_add_signed` with a `TimeDelta` of whole days: the date
/// that many days later, `None` when it falls outside `NaiveDate::MIN..=NaiveDate::MAX`, that
/// is, outside the years `MIN_YEAR..=MAX_YEAR`.
#[verifier::external_body]
fn add_days_to(year: i32, month: u32, day: u32, days: i32) -> (r: Option<(i32, u32, u32)>)
    requires
        is_valid(ymd(year as int, month as int, day as int)),
    ensures
        r is Some <==> first_day() <= day_number(ymd(year as int, month as int, day as int)) + days
            <= last_day(),
        r matches Some(t) ==> is_valid(ymd(t.0 as int, t.1 as int, t.2 as int)) && day_number(
            ymd(t.0 as int, t.1 as int, t.2 as int),
        ) == day_number(ymd(year as int, month as int, day as int)) + days,
{
    let start = NaiveDate::from_ymd_opt(year, month, day).unwrap();
    start.checked_add_signed(TimeDelta::days(days as i64)).map(|d| (d.year(), d.month(), d.day()))
}

/// Each month of year `y` starts after the days of the months before it, and the last month
/// ends with the year.
proof fn lemma_month_bounds(y: int, m: int)
    requires
        1 <= m <= 12,
    ensures
        m < 12 ==> days_before_month(y, m + 1) == days_before_month(y, m) + days_in_month(y, m),
        m == 12 ==> days_before_month(y, m) + days_in_month(y, m) == 365 + if is_leap_year(y) {
            1int
        } else {
            0int
        },
{
}

/// The first of January of year `y + 1` comes one year length after that of year `y`.
proof fn lemma_year_length(y: int)
    ensures
        days_before_year(y + 1) == days_before_year(y) + 365 + if is_leap_year(y) {
            1int
        } else {
            0int
        },
{
    let p = y - 1;
    assert(y / 4 == p / 4 + if y % 4 == 0 { 1int } else { 0int }) by {
        lemma_floor_step(p, 4);
    }
    assert(y / 100 == p / 100 + if y % 100 == 0 { 1int } else { 0int }) by {
        lemma_floor_step(p, 100);
    }
    assert(y / 400 == p / 400 + if y % 400 == 0 { 1int } else { 0int }) by {
        lemma_floor_step(p, 400);
    }
    assert(y % 100 == 0 ==> y % 4 == 0);
    assert(y % 400 == 0 ==> y % 100 == 0);
}

/// Floor division by `k` steps up by one exactly where the next number is a multiple of `k`.
proof fn lemma_floor_step(p: int, k: int)
    requires
        k > 0,
    ensures
        (p + 1) / k == p / k + if (p + 1) % k == 0 {
            1int
        } else {
            0int
        },
{
    let q = p / k;
    let r = p % k;
    vstd::arithmetic::div_mod::lemma_fundamental_div_mod(p, k);
    vstd::arithmetic::div_mod::lemma_mod_bound(p, k);
    if r == k - 1 {
        assert(p + 1 == (q + 1) * k + 0) by (nonlinear_arith)
            requires
                p == k * q + r,
                r == k - 1,
        ;
        vstd::arithmetic::div_mod::lemma_fundamental_div_mod_converse(p + 1, k, q + 1, 0);
    } else {
        assert(p + 1 == q * k + (r + 1)) by (nonlinear_arith)
            requires
                p == k * q + r,
        ;
        vstd::arithmetic::div_mod::lemma_fundamental_div_mod_converse(p + 1, k, q, r + 1);
    }
}

/// Every day of year `y1` comes before the first of January of a later year `y2`.
proof fn lemma_years_ordered(y1: int, y2: int)
    requires
        y1 < y2,
    ensures
        days_before_year(y1) + 365 + (if is_leap_year(y1) {
            1int
        } else {
            0int
        }) <= days_before_year(y2),
    decreases y2 - y1,
{
    lemma_year_length(y1);
    if y1 + 1 < y2 {
        lemma_years_ordered(y1 + 1, y2);
    }
}

/// A valid date lies within its year.
proof fn lemma_day_within_year(t: Ymd)
    requires
        is_valid(t),
    ensures
        days_before_year(t.year) <= day_number(t),
        day_number(t) < days_before_year(t.year) + 365 + if is_leap_year(t.year) {
            1int
        } else {
            0int
        },
{
    lemma_month_bounds(t.year, 12);
    lemma_month_bounds(t.year, t.month);
}

/// The day number grows with the date: a date that comes before another has a smaller day
/// number.
pub proof fn lemma_day_number_increasing(a: Ymd, b: Ymd)
    requires
        is_valid(a),
        is_valid(b),
        is_before(a, b),
    ensures
        day_number(a) < day_number(b),
{
    if a.year < b.year {
        lemma_day_within_year(a);
        lemma_day_within_year(b);
        lemma_years_ordered(a.year, b.year);
    } else if a.month < b.month {
        lemma_month_bounds(a.year, a.month);
        assert(days_before_month(a.year, a.month + 1) <= days_before_month(a.year, b.month));
    }
}

/// Two valid dates with the same day number are the same date.
pub proof fn lemma_day_number_injective(a: Ymd, b: Ymd)
    requires
        is_valid(a),
        is_valid(b),
        day_number(a) == day_number(b),
    ensures
        a == b,
{
    if is_before(a, b) {
        lemma_day_number_increasing(a, b);
    } else if is_before(b, a) {
        lemma_day_number_increasing(b, a);
    }
}

/// A valid date is the date of its own day number, and lies between the first and the last day.
pub proof fn lemma_date_of_day(t: Ymd)
    requires
        is_valid(t),
    ensures
        date_of_day(day_number(t)) == t,
        first_day() <= day_number(t) <= last_day(),
{
    let c = date_of_day(day_number(t));
    assert(is_valid(c) && day_number(c) == day_number(t));
    lemma_day_number_injective(c, t);
    let lo = ymd(MIN_YEAR as int, 1, 1);
    let hi = ymd(MAX_YEAR as int, 12, 31);
    if is_before(lo, t) {
        lemma_day_number_increasing(lo, t);
    }
    if is_before(t, hi) {
        lemma_day_number_increasing(t, hi);
    }
}

} // verus!
