//! Small crate to calculate public holidays for each German federal state.
//!
//! This crate can calculate all *reoccurring* German holidays, which exist since 1995.
//!
//! There are some weird edge cases depending on the respective region,
//! see `GermanRegion` for more details.
//! A comprehensive overview can be found within the German Wikipedia
//! [Gesetzliche Feiertage in Deutschland](https://de.wikipedia.org/wiki/Gesetzliche_Feiertage_in_Deutschland).
use vstd::prelude::*;

pub mod date;
pub mod dated;
pub mod holidays;
pub mod regions;

pub use date::Date;
pub use holidays::{DateRule, GermanHoliday};
pub use regions::GermanRegion;

use date::Ymd;
use holidays::holiday_date;
use regions::holiday_on;

verus! {

/// Provides convenience methods for datelike data structures like `Date`.
pub trait DateExt {
    /// The calendar date that `self` stands for.
    spec fn calendar_date(&self) -> Ymd;

    /// True if date is a holiday within the specified region.
    ///
    /// Always `false` for dates before 1995.
    fn is_public_holiday_in(&self, region: GermanRegion) -> (r: bool)
        ensures
            r == holiday_on(region, self.calendar_date()) is Some,
    ;

    /// Returns the holiday if given date is a public holiday.
    ///
    /// Always `None` for dates before 1995.
    fn public_holiday_in(&self, region: GermanRegion) -> (r: Option<GermanHoliday>)
        ensures
            r == holiday_on(region, self.calendar_date()),
    ;

    /// True if date falls on the date of the given holiday.
    fn is_holiday(&self, holiday: GermanHoliday) -> (r: bool)
        ensures
            r == (holiday_date(holiday, self.calendar_date().year) == Some(self.calendar_date())),
    ;
}

impl DateExt for Date {
    open spec fn calendar_date(&self) -> Ymd {
        self@
    }

    fn is_public_holiday_in(&self, region: GermanRegion) -> (r: bool) {
        region.is_holiday(*self)
    }

    fn public_holiday_in(&self, region: GermanRegion) -> (r: Option<GermanHoliday>) {
        region.holiday_from_date(*self)
    }

    fn is_holiday(&self, holiday: GermanHoliday) -> (r: bool) {
        match holiday.date(self.year()) {
            Some(date) => date == *self,
            None => false,
        }
    }
}

} // verus!
