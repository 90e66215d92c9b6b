//! The Wayback Machine's API speaks in several date and date-time shapes.
//! This module holds those types: year-month, year-month-day, and the full
//! second-precision capture timestamp, together with the calendar facts
//! (month lengths, leap years) their contracts are stated over.
use vstd::prelude::*;

pub mod year_month;
pub mod year_month_day;
pub mod year_month_day_hour_minute_second;

pub use year_month::YearMonth;
pub use year_month_day::YearMonthDay;
pub use year_month_day_hour_minute_second::YearMonthDayHourMinuteSecond;

verus! {

/// Defines how partial dates are completed: a `from` date rounds every
/// missing component to the earliest instant consistent with what was
/// given, an `until` date to the latest.
#[derive(Clone, Copy, PartialEq, Eq, Structural, Debug)]
pub enum PartialDateRoundingMode {
    /// Used when parsing `from` dates.
    Floor,
    /// Used when parsing `until` dates.
    Ceiling,
}

/// Leap years of the proleptic Gregorian calendar.
pub open spec fn spec_is_leap_year(y: int) -> bool {
    y % 4 == 0 && (y % 100 != 0 || y % 400 == 0)
}

/// The number of days in month `m` of year `y` in the proleptic Gregorian
/// calendar.
pub open spec fn spec_days_in_month(y: int, m: int) -> int {
    if m == 2 {
        if spec_is_leap_year(y) {
            29
        } else {
            28
        }
    } else if m == 4 || m == 6 || m == 9 || m == 11 {
        30
    } else {
        31
    }
}

} // verus!
