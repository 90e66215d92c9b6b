//! Filtering one month's captures against the resolved range: only
//! HTTP-200 captures whose reconstructed timestamp lies strictly between
//! the range boundaries are kept for download.
use vstd::prelude::*;

use crate::resolver::RangeBounds;
use crate::wbm_api::Capture;
use crate::wbm_chrono::year_month_day_hour_minute_second::{lex_lt, YearMonthDayHourMinuteSecond};

verus! {

/// Whether a capture survives the filter: archived with status 200, and
/// its timestamp strictly between the resolved boundaries.
pub open spec fn spec_kept(c: Capture, from: Seq<char>, until: Seq<char>) -> bool {
    c.status == 200 && lex_lt(from, c.ymdhms@) && lex_lt(c.ymdhms@, until)
}

/// The timestamps of the captures that survive the filter, in their
/// original relative order.
pub open spec fn spec_filtered_keys(s: Seq<Capture>, from: Seq<char>, until: Seq<char>) -> Seq<
    Seq<char>,
>
    decreases s.len(),
{
    if s.len() == 0 {
        Seq::empty()
    } else {
        let rest = spec_filtered_keys(s.drop_last(), from, until);
        if spec_kept(s.last(), from, until) {
            rest.push(s.last().ymdhms@)
        } else {
            rest
        }
    }
}

/// Keeps the timestamps of the captures that were archived with status 200
/// and fall strictly within the resolved range.
pub fn filter_captures(captures: &Vec<Capture>, bounds: &RangeBounds) -> (keys: Vec<
    YearMonthDayHourMinuteSecond,
>)
    ensures
        keys@.map_values(|k: YearMonthDayHourMinuteSecond| k@) == spec_filtered_keys(
            captures@,
            bounds.from@,
            bounds.until@,
        ),
{
    let ghost f = |k: YearMonthDayHourMinuteSecond| k@;
    let mut keys: Vec<YearMonthDayHourMinuteSecond> = Vec::new();
    let mut i: usize = 0;
    assert(captures@.subrange(0, 0) =~= Seq::<Capture>::empty());
    assert(keys@.map_values(f) =~= spec_filtered_keys(
        captures@.subrange(0, 0),
        bounds.from@,
        bounds.until@,
    ));
    while i < captures.len()
        invariant
            i <= captures@.len(),
            keys@.map_values(|k: YearMonthDayHourMinuteSecond| k@) == spec_filtered_keys(
                captures@.subrange(0, i as int),
                bounds.from@,
                bounds.until@,
            ),
        decreases captures@.len() - i,
    {
        let ghost pre = keys@;
        let c = &captures[i];
        if c.status == 200 && bounds.from.lt(&c.ymdhms) && c.ymdhms.lt(&bounds.until) {
            keys.push(c.ymdhms.clone());
        }
        proof {
            let g = |k: YearMonthDayHourMinuteSecond| k@;
            assert(captures@.subrange(0, i + 1).drop_last() =~= captures@.subrange(0, i as int));
            assert(captures@.subrange(0, i + 1).last() == captures@[i as int]);
            assert(keys@.map_values(g) =~= spec_filtered_keys(
                captures@.subrange(0, i + 1),
                bounds.from@,
                bounds.until@,
            )) by {
                if keys@.len() > pre.len() {
                    assert(keys@.drop_last() == pre);
                    assert(keys@.map_values(g) =~= pre.map_values(g).push(g(keys@.last())));
                }
            }
        }
        i = i + 1;
    }
    assert(captures@.subrange(0, captures@.len() as int) =~= captures@);
    keys
}

} // verus!
