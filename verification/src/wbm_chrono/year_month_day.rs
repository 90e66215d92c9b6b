//! A calendar date parsed from user input. Input may give only a year, a
//! year and month, or a full date, with the dashes optional; the missing
//! components are completed under a rounding mode, the `until` side landing
//! on the true last day of the month (leap years included).
use vstd::prelude::*;

use chrono::Datelike;

use crate::digits::{all_digits, append_decimal_padded, parse_four_digits, parse_two_digits,
    str_num};
use crate::error::Error;
use super::year_month::YearMonth;
use super::year_month_day_hour_minute_second::{ymdhms_seq, YearMonthDayHourMinuteSecond};
use super::{spec_days_in_month, PartialDateRoundingMode};

verus! {

/// A calendar date, ordered by `(year, month, day)`.
#[derive(Clone, Copy, PartialEq, Eq, Structural, Debug)]
pub struct YearMonthDay {
    pub year: i32,
    pub month: u32,
    pub day: u32,
}

/// The components given by a date string of an accepted shape: the year,
/// then the month and day where present. `None` for any other string.
///
/// Accepted shapes are a four-digit year, optionally followed by a
/// two-digit month in `01`..`12`, optionally followed by a two-digit day in
/// `01`..`31`, with a single optional dash before the month and before the
/// day, and nothing after the last component.
pub open spec fn parsed_date(s: Seq<char>) -> Option<(int, Option<int>, Option<int>)> {
    if s.len() < 4 || !all_digits(s.subrange(0, 4)) {
        None
    } else {
        let y = str_num(s.subrange(0, 4));
        if s.len() == 4 {
            Some((y, None, None))
        } else {
            let i: int = if s[4] == '-' {
                5
            } else {
                4
            };
            if s.len() < i + 2 || !all_digits(s.subrange(i, i + 2)) {
                None
            } else {
                let m = str_num(s.subrange(i, i + 2));
                if !(1 <= m <= 12) {
                    None
                } else if s.len() == i + 2 {
                    Some((y, Some(m), None))
                } else {
                    let j: int = if s[i + 2] == '-' {
                        i + 3
                    } else {
                        i + 2
                    };
                    if s.len() != j + 2 || !all_digits(s.subrange(j, j + 2)) {
                        None
                    } else {
                        let d = str_num(s.subrange(j, j + 2));
                        if 1 <= d <= 31 {
                            Some((y, Some(m), Some(d)))
                        } else {
                            None
                        }
                    }
                }
            }
        }
    }
}

/// The month a parsed date resolves to under a rounding mode: the month
/// given, or January for a range start and December for a range end.
pub open spec fn rounded_month(p: (int, Option<int>, Option<int>), mode: PartialDateRoundingMode) -> int {
    match p.1 {
        Some(m) => m,
        None => if mode is Floor {
            1
        } else {
            12
        },
    }
}

/// The day a parsed date resolves to under a rounding mode: the day given,
/// or the first of the month for a range start and the last calendar day of
/// the resolved month for a range end.
pub open spec fn rounded_day(p: (int, Option<int>, Option<int>), mode: PartialDateRoundingMode) -> int {
    match p.2 {
        Some(d) => d,
        None => if mode is Floor {
            1
        } else {
            spec_days_in_month(p.0, rounded_month(p, mode))
        },
    }
}

/// Relies on chrono's `NaiveDate` (a proleptic Gregorian calendar date):
/// `from_ymd_opt(year, month, 1)` is the first day of `(year, month)`,
/// `pred_opt` the day before it, and `day` that day's day-of-month — which
/// is the number of days in the month preceding `(year, month)`. Both
/// options are `Some` for the admitted years, which lie well inside
/// `NaiveDate`'s range.
#[verifier::external_body]
fn day_before_first_of(year: i32, month: u32) -> (r: u32)
    requires
        0 <= year <= 10000,
        1 <= month <= 12,
    ensures
        r as int == spec_days_in_month(
            if month == 1 {
                year - 1
            } else {
                year as int
            },
            if month == 1 {
                12
            } else {
                month - 1
            },
        ),
{
    let first = chrono::NaiveDate::from_ymd_opt(year, month, 1).unwrap();
    let prev = first.pred_opt().unwrap();
    prev.day()
}

/// The number of days in month `month` of year `year`, computed as the day
/// before the first of the following month.
pub fn last_day_of_month(year: i32, month: u32) -> (r: u32)
    requires
        0 <= year <= 9999,
        1 <= month <= 12,
    ensures
        r as int == spec_days_in_month(year as int, month as int),
{
    if month == 12 {
        day_before_first_of(year + 1, 1)
    } else {
        day_before_first_of(year, month + 1)
    }
}

impl YearMonthDay {
    /// A well-formed date: a four-digit year, a real month, and a day no
    /// larger than any calendar month has.
    pub open spec fn wf(&self) -> bool {
        0 <= self.year <= 9999 && 1 <= self.month <= 12 && 1 <= self.day <= 31
    }

    /// Parses a date string of one of the accepted shapes and completes the
    /// missing components under the rounding mode; `InvalidDate` for any
    /// other string.
    pub fn from_str(date: &str, rounding_mode: PartialDateRoundingMode) -> (r: Result<
        YearMonthDay,
        Error,
    >)
        ensures
            r is Err <==> parsed_date(date@) is None,
            r matches Err(e) ==> e == Error::InvalidDate,
            parsed_date(date@) matches Some(p) ==> r == Ok::<YearMonthDay, Error>(
                YearMonthDay {
                    year: p.0 as i32,
                    month: rounded_month(p, rounding_mode) as u32,
                    day: rounded_day(p, rounding_mode) as u32,
                },
            ),
            r matches Ok(ymd) ==> ymd.wf(),
    {
        let n = date.unicode_len();
        if n < 4 {
            return Err(Error::InvalidDate);
        }
        let year: u32 = match parse_four_digits(date, 0) {
            Some(y) => y,
            None => {
                return Err(Error::InvalidDate);
            },
        };
        if n == 4 {
            return Ok(Self::rounded(year, None, None, rounding_mode));
        }
        let mut i: usize = 4;
        if date.get_char(4) == '-' {
            i = 5;
        }
        if n < i + 2 {
            return Err(Error::InvalidDate);
        }
        let month: u32 = match parse_two_digits(date, i) {
            Some(m) => m,
            None => {
                return Err(Error::InvalidDate);
            },
        };
        if month < 1 || month > 12 {
            return Err(Error::InvalidDate);
        }
        if n == i + 2 {
            return Ok(Self::rounded(year, Some(month), None, rounding_mode));
        }
        let mut j: usize = i + 2;
        if date.get_char(j) == '-' {
            j = j + 1;
        }
        if n != j + 2 {
            return Err(Error::InvalidDate);
        }
        let day: u32 = match parse_two_digits(date, j) {
            Some(d) => d,
            None => {
                return Err(Error::InvalidDate);
            },
        };
        if day < 1 || day > 31 {
            return Err(Error::InvalidDate);
        }
        Ok(Self::rounded(year, Some(month), Some(day), rounding_mode))
    }

    /// Completes parsed components into a concrete date under the rounding
    /// mode.
    fn rounded(year: u32, month: Option<u32>, day: Option<u32>, mode: PartialDateRoundingMode) -> (r:
        YearMonthDay)
        requires
            year < 10000,
            month matches Some(m) ==> 1 <= m <= 12,
            day matches Some(d) ==> 1 <= d <= 31,
        ensures
            ({
                let p = (
                    year as int,
                    match month {
                        Some(m) => Some(m as int),
                        None => None,
                    },
                    match day {
                        Some(d) => Some(d as int),
                        None => None,
                    },
                );
                r == YearMonthDay {
                    year: year as i32,
                    month: rounded_month(p, mode) as u32,
                    day: rounded_day(p, mode) as u32,
                } && r.wf()
            }),
    {
        let m: u32 = match month {
            Some(m) => m,
            None => match mode {
                PartialDateRoundingMode::Floor => 1,
                PartialDateRoundingMode::Ceiling => 12,
            },
        };
        let d: u32 = match day {
            Some(d) => d,
            None => match mode {
                PartialDateRoundingMode::Floor => 1,
                PartialDateRoundingMode::Ceiling => last_day_of_month(year as i32, m),
            },
        };
        YearMonthDay { year: year as i32, month: m, day: d }
    }

    /// The month this date falls in.
    pub fn to_year_month(&self) -> (r: YearMonth)
        ensures
            r == (YearMonth { year: self.year, month: self.month }),
    {
        YearMonth { year: self.year, month: self.month }
    }

    /// Expands this day-precision date to a full timestamp: the very start
    /// of the day for a range start, the very end for a range end.
    pub fn to_year_month_day_hour_minute_second(&self, rounding_mode: PartialDateRoundingMode) -> (r:
        YearMonthDayHourMinuteSecond)
        requires
            self.wf(),
        ensures
            rounding_mode is Floor ==> r@ == ymdhms_seq(
                self.year as int,
                self.month as int,
                self.day as int,
                0,
                0,
                0,
            ),
            rounding_mode is Ceiling ==> r@ == ymdhms_seq(
                self.year as int,
                self.month as int,
                self.day as int,
                23,
                59,
                59,
            ),
    {
        let (hour, minute, second): (u32, u32, u32) = match rounding_mode {
            PartialDateRoundingMode::Floor => (0, 0, 0),
            PartialDateRoundingMode::Ceiling => (23, 59, 59),
        };
        let mut s = String::new();
        append_decimal_padded(&mut s, self.year as u32, 4);
        append_decimal_padded(&mut s, self.month, 2);
        append_decimal_padded(&mut s, self.day, 2);
        append_decimal_padded(&mut s, hour, 2);
        append_decimal_padded(&mut s, minute, 2);
        append_decimal_padded(&mut s, second, 2);
        assert(s@ =~= ymdhms_seq(
            self.year as int,
            self.month as int,
            self.day as int,
            hour as int,
            minute as int,
            second as int,
        ));
        YearMonthDayHourMinuteSecond::new(s)
    }
}

} // verus!
