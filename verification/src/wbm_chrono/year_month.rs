//! A calendar month of a given year: the unit the Wayback Machine calendar
//! API is queried in, and the element of the month range enumerated between
//! two resolved dates.
use vstd::prelude::*;

use crate::digits::{append_decimal_padded, dec_digits};
use crate::error::Error;

verus! {

/// A year and a month, ordered by `(year, month)`.
#[derive(Clone, Copy, PartialEq, Eq, Structural, Debug)]
pub struct YearMonth {
    pub year: i32,
    pub month: u32,
}

/// The rank of a year-month on the time line, counted in months.
pub open spec fn ym_index(ym: YearMonth) -> int {
    ym.year * 12 + (ym.month - 1)
}

/// The year-month of a given rank.
pub open spec fn ym_of_index(n: int) -> YearMonth {
    YearMonth { year: (n / 12) as i32, month: (n % 12 + 1) as u32 }
}

/// The six-character `YYYYMM` form of a year-month.
pub open spec fn ym_seq(ym: YearMonth) -> Seq<char> {
    dec_digits(ym.year as int, 4) + dec_digits(ym.month as int, 2)
}

pub proof fn lemma_ym_index_roundtrip(ym: YearMonth)
    requires
        ym.wf(),
    ensures
        ym_of_index(ym_index(ym)) == ym,
{
    let n = ym_index(ym);
    assert(n / 12 == ym.year && n % 12 == ym.month - 1) by (nonlinear_arith)
        requires
            n == ym.year * 12 + (ym.month - 1),
            0 <= ym.month - 1 < 12,
    ;
}

/// Ranks in the supported years correspond one-to-one to well-formed
/// year-months; in particular two distinct positions of an enumerated
/// month range always hold distinct months.
pub proof fn lemma_ym_index_of_index(n: int)
    requires
        0 <= n < 120000,
    ensures
        ym_of_index(n).wf(),
        ym_index(ym_of_index(n)) == n,
{
    assert(0 <= n / 12 <= 9999 && (n / 12) * 12 + n % 12 == n) by (nonlinear_arith)
        requires
            0 <= n < 120000,
    ;
}

impl YearMonth {
    /// A well-formed year-month: a four-digit year and a real month number.
    pub open spec fn wf(&self) -> bool {
        0 <= self.year <= 9999 && 1 <= self.month <= 12
    }

    /// Every year-month from `self` through `other` inclusive, ascending,
    /// one entry per month; `DateRangeBackwards` when `self` is after
    /// `other`.
    pub fn months_between_inclusive(&self, other: &Self) -> (r: Result<Vec<YearMonth>, Error>)
        requires
            self.wf(),
            other.wf(),
        ensures
            r is Err <==> ym_index(*self) > ym_index(*other),
            r matches Err(e) ==> e == Error::DateRangeBackwards,
            r matches Ok(v) ==> v@.len() == ym_index(*other) - ym_index(*self) + 1 && (forall|
                k: int,
            |
                0 <= k < v@.len() ==> #[trigger] v@[k] == ym_of_index(ym_index(*self) + k)) && (
            forall|k: int| 0 <= k < v@.len() ==> #[trigger] v@[k].wf()),
    {
        if self.year > other.year || (self.year == other.year && self.month > other.month) {
            return Err(Error::DateRangeBackwards);
        }
        let mut results: Vec<YearMonth> = Vec::new();
        let mut current: YearMonth = *self;
        while current.year < other.year || (current.year == other.year && current.month
            <= other.month)
            invariant
                self.wf(),
                other.wf(),
                0 <= current.year,
                1 <= current.month <= 12,
                ym_index(*self) <= ym_index(current) <= ym_index(*other) + 1,
                results@.len() == ym_index(current) - ym_index(*self),
                forall|k: int|
                    0 <= k < results@.len() ==> #[trigger] results@[k] == ym_of_index(
                        ym_index(*self) + k,
                    ),
                forall|k: int| 0 <= k < results@.len() ==> #[trigger] results@[k].wf(),
            decreases ym_index(*other) + 1 - ym_index(current),
    {
            proof {
                assert(ym_index(current) <= ym_index(*other));
                assert(current.year <= other.year);
                lemma_ym_index_roundtrip(current);
            }
            results.push(current);
            current.month = current.month + 1;
            if current.month > 12 {
                current.year = current.year + 1;
                current.month = 1;
            }
        }
        assert(ym_index(current) == ym_index(*other) + 1);
        Ok(results)
    }

    /// The `YYYYMM` date string the calendar API takes, year and month both
    /// zero-padded.
    pub fn to_wbm_date_string(&self) -> (r: String)
        requires
            self.wf(),
        ensures
            r@ == ym_seq(*self),
    {
        let mut s = String::new();
        append_decimal_padded(&mut s, self.year as u32, 4);
        append_decimal_padded(&mut s, self.month, 2);
        assert(s@ =~= ym_seq(*self));
        s
    }
}

} // verus!
