//! Resolving a pair of user-supplied partial date strings into precise
//! range boundaries and the inclusive list of months to query: the `from`
//! side is completed toward the earliest instant it can mean, the `until`
//! side toward the latest, and a range whose start lies after its end is
//! rejected before any network activity.
use vstd::prelude::*;

use crate::digits::lemma_str_num_len4_bound;
use crate::error::Error;
use crate::wbm_chrono::year_month::{ym_of_index, YearMonth};
use crate::wbm_chrono::year_month_day::{parsed_date, rounded_day, rounded_month, YearMonthDay};
use crate::wbm_chrono::year_month_day_hour_minute_second::{lemma_key_order, lex_lt, ymdhms_seq,
    YearMonthDayHourMinuteSecond};
use crate::wbm_chrono::PartialDateRoundingMode;

verus! {

/// The resolved boundaries of the requested range: full timestamps at the
/// very start of the first day and the very end of the last day. They are
/// only constructed with `from` at or before `until`.
#[derive(Debug)]
pub struct RangeBounds {
    pub from: YearMonthDayHourMinuteSecond,
    pub until: YearMonthDayHourMinuteSecond,
}

impl RangeBounds {
    /// The boundaries are ordered: the range's first instant lies strictly
    /// before its last.
    pub open spec fn wf(&self) -> bool {
        lex_lt(self.from@, self.until@)
    }
}

/// The `(year, month, day)` a date string resolves to under a rounding
/// mode, when it parses.
pub open spec fn spec_resolved(s: Seq<char>, mode: PartialDateRoundingMode) -> Option<
    (int, int, int),
> {
    match parsed_date(s) {
        Some(p) => Some((p.0, rounded_month(p, mode), rounded_day(p, mode))),
        None => None,
    }
}

/// Strict order on resolved `(year, month, day)` triples.
pub open spec fn ymd_after(a: (int, int, int), b: (int, int, int)) -> bool {
    a.0 > b.0 || (a.0 == b.0 && (a.1 > b.1 || (a.1 == b.1 && a.2 > b.2)))
}

/// Strict order on two parsed partial dates at their shared precision:
/// both give the same components, and the `from` side's components are
/// lexicographically after the `until` side's.
pub open spec fn partial_after(
    pf: (int, Option<int>, Option<int>),
    pu: (int, Option<int>, Option<int>),
) -> bool {
    pf.0 > pu.0 || (pf.0 == pu.0 && match (pf.1, pu.1) {
        (Some(mf), Some(mu)) => mf > mu || (mf == mu && match (pf.2, pu.2) {
            (Some(df), Some(du)) => df > du,
            _ => false,
        }),
        _ => false,
    })
}

/// A backwards range is always rejected: when the two date strings parse
/// at the same precision and the `from` components lie strictly after the
/// `until` components at that precision, the resolved `from` day lies
/// strictly after the resolved `until` day, so `resolve` fails with
/// `DateRangeBackwards`.
pub proof fn lemma_backwards_range_rejected(f: Seq<char>, u: Seq<char>)
    requires
        parsed_date(f) is Some,
        parsed_date(u) is Some,
        parsed_date(f)->Some_0.1 is Some <==> parsed_date(u)->Some_0.1 is Some,
        parsed_date(f)->Some_0.2 is Some <==> parsed_date(u)->Some_0.2 is Some,
        partial_after(parsed_date(f)->Some_0, parsed_date(u)->Some_0),
    ensures
        ymd_after(
            spec_resolved(f, PartialDateRoundingMode::Floor)->Some_0,
            spec_resolved(u, PartialDateRoundingMode::Ceiling)->Some_0,
        ),
{
}

/// Resolves the two date strings of the requested range into day-precision
/// boundaries and enumerates every year-month between them, inclusive and
/// ascending. Fails with `InvalidDate` when either string has an
/// unaccepted shape, and with `DateRangeBackwards` when the resolved
/// `from` day lies strictly after the resolved `until` day.
pub fn resolve(from_raw: &str, until_raw: &str) -> (r: Result<
    (RangeBounds, Vec<YearMonth>),
    Error,
>)
    ensures
        r is Err <==> (parsed_date(from_raw@) is None || parsed_date(until_raw@) is None
            || ymd_after(
            spec_resolved(from_raw@, PartialDateRoundingMode::Floor)->Some_0,
            spec_resolved(until_raw@, PartialDateRoundingMode::Ceiling)->Some_0,
        )),
        r matches Err(e) ==> if parsed_date(from_raw@) is None || parsed_date(until_raw@) is None {
            e == Error::InvalidDate
        } else {
            e == Error::DateRangeBackwards
        },
        r matches Ok(ok) ==> ({
            let f = spec_resolved(from_raw@, PartialDateRoundingMode::Floor)->Some_0;
            let u = spec_resolved(until_raw@, PartialDateRoundingMode::Ceiling)->Some_0;
            let lo = f.0 * 12 + f.1 - 1;
            let hi = u.0 * 12 + u.1 - 1;
            &&& ok.0.from@ == ymdhms_seq(f.0, f.1, f.2, 0, 0, 0)
            &&& ok.0.until@ == ymdhms_seq(u.0, u.1, u.2, 23, 59, 59)
            &&& ok.0.wf()
            &&& ok.1@.len() == hi - lo + 1
            &&& forall|k: int| 0 <= k < ok.1@.len() ==> #[trigger] ok.1@[k] == ym_of_index(lo + k)
            &&& forall|k: int| 0 <= k < ok.1@.len() ==> #[trigger] ok.1@[k].wf()
        }),
{
    let from = match YearMonthDay::from_str(from_raw, PartialDateRoundingMode::Floor) {
        Ok(d) => d,
        Err(e) => {
            return Err(e);
        },
    };
    let until = match YearMonthDay::from_str(until_raw, PartialDateRoundingMode::Ceiling) {
        Ok(d) => d,
        Err(e) => {
            return Err(e);
        },
    };
    proof {
        lemma_str_num_len4_bound(from_raw@.subrange(0, 4));
        lemma_str_num_len4_bound(until_raw@.subrange(0, 4));
    }
    if from.year > until.year || (from.year == until.year && (from.month > until.month || (
    from.month == until.month && from.day > until.day))) {
        return Err(Error::DateRangeBackwards);
    }
    let months = match from.to_year_month().months_between_inclusive(&until.to_year_month()) {
        Ok(v) => v,
        Err(_) => {
            proof {
                assert(false);
            }
            Vec::new()
        },
    };
    let bounds = RangeBounds {
        from: from.to_year_month_day_hour_minute_second(PartialDateRoundingMode::Floor),
        until: until.to_year_month_day_hour_minute_second(PartialDateRoundingMode::Ceiling),
    };
    proof {
        lemma_key_order(
            from.year as int,
            from.month as int,
            from.day as int,
            0,
            0,
            0,
            until.year as int,
            until.month as int,
            until.day as int,
            23,
            59,
            59,
        );
    }
    Ok((bounds, months))
}

} // verus!
