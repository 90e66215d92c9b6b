//! The string-level date helpers of the Wayback Machine wire format: a
//! partial date completed to an eight-digit `YYYYMMDD` string, and the
//! six-digit month strings lying between two such dates.
use vstd::prelude::*;

use crate::digits::{all_digits, append_decimal_padded, dec_digits, is_digit_char,
    lemma_str_num_len4_bound, str_num};
use crate::error::Error;
use crate::wbm_chrono::year_month::{ym_index, ym_of_index, ym_seq, YearMonth};
use crate::wbm_chrono::year_month_day::{parsed_date, rounded_day, rounded_month, YearMonthDay};
use crate::wbm_chrono::PartialDateRoundingMode;

verus! {

/// Which end of the requested range a date string belongs to.
#[derive(Clone, Copy, PartialEq, Eq, Structural, Debug)]
pub enum RangePart {
    From,
    Until,
}

/// The eight-character `YYYYMMDD` form of a partial date, completed toward
/// the earliest day for the `From` part of a range and the latest day for
/// the `Until` part; `InvalidDate` for a string of any other shape.
pub fn to_wbm_date(range_part: RangePart, date: String) -> (r: Result<String, Error>)
    ensures
        r is Err <==> parsed_date(date@) is None,
        r matches Err(e) ==> e == Error::InvalidDate,
        parsed_date(date@) matches Some(p) ==> ({
            let mode = if range_part is From {
                PartialDateRoundingMode::Floor
            } else {
                PartialDateRoundingMode::Ceiling
            };
            r matches Ok(s) && s@ == dec_digits(p.0, 4) + dec_digits(rounded_month(p, mode), 2)
                + dec_digits(rounded_day(p, mode), 2)
        }),
{
    let mode = match range_part {
        RangePart::From => PartialDateRoundingMode::Floor,
        RangePart::Until => PartialDateRoundingMode::Ceiling,
    };
    match YearMonthDay::from_str(date.as_str(), mode) {
        Err(e) => Err(e),
        Ok(ymd) => {
            proof {
                let p = parsed_date(date@)->Some_0;
                lemma_str_num_len4_bound(date@.subrange(0, 4));
                assert(p.0 == ymd.year as int);
            }
            let mut s = String::new();
            append_decimal_padded(&mut s, ymd.year as u32, 4);
            append_decimal_padded(&mut s, ymd.month, 2);
            append_decimal_padded(&mut s, ymd.day, 2);
            Ok(s)
        },
    }
}

/// The six-character `YYYYMM` strings of every month between the months of
/// two eight-digit (or longer) `YYYYMMDD...` date strings, inclusive and
/// ascending.
pub fn get_months_between_dates(from: &str, until: &str) -> (r: Vec<String>)
    requires
        from@.len() <= usize::MAX,
        until@.len() <= usize::MAX,
        6 <= from@.len(),
        6 <= until@.len(),
        all_digits(from@.subrange(0, 6)),
        all_digits(until@.subrange(0, 6)),
        1 <= str_num(from@.subrange(4, 6)) <= 12,
        1 <= str_num(until@.subrange(4, 6)) <= 12,
        str_num(from@.subrange(0, 4)) * 12 + str_num(from@.subrange(4, 6)) <= str_num(
            until@.subrange(0, 4),
        ) * 12 + str_num(until@.subrange(4, 6)),
    ensures
        ({
            let lo = str_num(from@.subrange(0, 4)) * 12 + str_num(from@.subrange(4, 6)) - 1;
            let hi = str_num(until@.subrange(0, 4)) * 12 + str_num(until@.subrange(4, 6)) - 1;
            r@.len() == hi - lo + 1 && forall|k: int|
                0 <= k < r@.len() ==> #[trigger] r@[k]@ == ym_seq(ym_of_index(lo + k))
        }),
{
    let from_ym = parse_year_month_prefix(from);
    let until_ym = parse_year_month_prefix(until);
    let months = match from_ym.months_between_inclusive(&until_ym) {
        Ok(v) => v,
        Err(_) => {
            proof {
                assert(false);
            }
            Vec::new()
        },
    };
    let mut out: Vec<String> = Vec::new();
    let mut idx: usize = 0;
    while idx < months.len()
        invariant
            idx <= months@.len(),
            out@.len() == idx,
            forall|k: int|
                0 <= k < months@.len() ==> #[trigger] months@[k] == ym_of_index(
                    ym_index(from_ym) + k,
                ),
            forall|k: int| 0 <= k < months@.len() ==> #[trigger] months@[k].wf(),
            forall|k: int|
                0 <= k < out@.len() ==> #[trigger] out@[k]@ == ym_seq(
                    ym_of_index(ym_index(from_ym) + k),
                ),
        decreases months@.len() - idx,
    {
        let s = months[idx].to_wbm_date_string();
        out.push(s);
        idx = idx + 1;
    }
    out
}

/// Reads the `YYYYMM` prefix of an all-digit date string into a year-month.
fn parse_year_month_prefix(s: &str) -> (r: YearMonth)
    requires
        s@.len() <= usize::MAX,
        6 <= s@.len(),
        all_digits(s@.subrange(0, 6)),
        1 <= str_num(s@.subrange(4, 6)) <= 12,
    ensures
        r.year as int == str_num(s@.subrange(0, 4)),
        r.month as int == str_num(s@.subrange(4, 6)),
        r.wf(),
{
    proof {
        let t = s@.subrange(0, 6);
        assert forall|i: int| 0 <= i < 4 implies is_digit_char(#[trigger] s@.subrange(0, 4)[i]) by {
            assert(s@.subrange(0, 4)[i] == t[i]);
        }
        assert forall|i: int| 0 <= i < 2 implies is_digit_char(#[trigger] s@.subrange(4, 6)[i]) by {
            assert(s@.subrange(4, 6)[i] == t[i + 4]);
        }
        lemma_str_num_len4_bound(s@.subrange(0, 4));
    }
    let year = match crate::digits::parse_four_digits(s, 0) {
        Some(y) => y,
        None => {
            proof {
                assert(false);
            }
            0
        },
    };
    let month = match crate::digits::parse_two_digits(s, 4) {
        Some(m) => m,
        None => {
            proof {
                assert(false);
            }
            0
        },
    };
    YearMonth { year: year as i32, month }
}

} // verus!
