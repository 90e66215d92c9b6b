//! The canonical second-precision capture timestamp: a fixed-width
//! fourteen-character `YYYYMMDDHHMMSS` string. It is the identity of a
//! capture, the key range filtering compares, and the stem of the file a
//! capture is stored under, so every field is unconditionally zero-padded.
use vstd::prelude::*;

use crate::digits::{all_digits, append_decimal_padded, dec_digits, digit_val, is_digit_char,
    lemma_all_digits_concat, lemma_all_digits_dec_digits, lemma_dec_digits_len, lemma_pow10_pos,
    lemma_str_num_bound, lemma_str_num_concat, lemma_str_num_dec_digits, pow10, str_num};
use super::year_month::YearMonth;

verus! {

/// A full timestamp at second precision, in canonical fixed-width form.
#[derive(Debug, PartialEq, Eq)]
pub struct YearMonthDayHourMinuteSecond(String);

impl View for YearMonthDayHourMinuteSecond {
    type V = Seq<char>;

    closed spec fn view(&self) -> Seq<char> {
        self.0@
    }
}

impl Clone for YearMonthDayHourMinuteSecond {
    fn clone(&self) -> (r: Self)
        ensures
            r@ == self@,
    {
        YearMonthDayHourMinuteSecond(self.0.clone())
    }
}

/// The canonical character sequence of a timestamp with the given fields.
pub open spec fn ymdhms_seq(y: int, m: int, d: int, h: int, mi: int, s: int) -> Seq<char> {
    dec_digits(y, 4) + dec_digits(m, 2) + dec_digits(d, 2) + dec_digits(h, 2) + dec_digits(mi, 2)
        + dec_digits(s, 2)
}

/// Strict lexicographic order on character sequences, by code point. On the
/// fixed-width timestamp strings this is the chronological order.
pub open spec fn lex_lt(a: Seq<char>, b: Seq<char>) -> bool
    decreases a.len(),
{
    if b.len() == 0 {
        false
    } else if a.len() == 0 {
        true
    } else if (a.first() as int) < (b.first() as int) {
        true
    } else if (a.first() as int) > (b.first() as int) {
        false
    } else {
        lex_lt(a.drop_first(), b.drop_first())
    }
}

/// On equal-width digit strings, numeric order implies lexicographic
/// order: the unconditional zero-padding is what makes the canonical keys
/// sort identically under string and numeric comparison.
pub proof fn lemma_str_num_lt_implies_lex(a: Seq<char>, b: Seq<char>)
    requires
        all_digits(a),
        all_digits(b),
        a.len() == b.len(),
        str_num(a) < str_num(b),
    ensures
        lex_lt(a, b),
    decreases a.len(),
{
    assert(a.len() > 0);
    let ra = a.drop_first();
    let rb = b.drop_first();
    assert forall|i: int| 0 <= i < ra.len() implies is_digit_char(#[trigger] ra[i]) by {
        assert(ra[i] == a[i + 1]);
    }
    assert forall|i: int| 0 <= i < rb.len() implies is_digit_char(#[trigger] rb[i]) by {
        assert(rb[i] == b[i + 1]);
    }
    assert(a =~= seq![a.first()] + ra);
    assert(b =~= seq![b.first()] + rb);
    assert(str_num(Seq::<char>::empty()) == 0);
    assert(seq![a.first()].drop_last() =~= Seq::<char>::empty());
    assert(seq![b.first()].drop_last() =~= Seq::<char>::empty());
    assert(str_num(seq![a.first()]) == digit_val(a.first()));
    assert(str_num(seq![b.first()]) == digit_val(b.first()));
    lemma_str_num_concat(seq![a.first()], ra);
    lemma_str_num_concat(seq![b.first()], rb);
    lemma_str_num_bound(ra);
    lemma_str_num_bound(rb);
    lemma_pow10_pos(ra.len());
    let p = pow10(ra.len());
    let da = digit_val(a.first());
    let db = digit_val(b.first());
    assert(str_num(a) == da * p + str_num(ra));
    assert(str_num(b) == db * p + str_num(rb));
    if da < db {
        assert((a.first() as int) < (b.first() as int));
    } else if da > db {
        assert(da * p >= db * p + p) by (nonlinear_arith)
            requires
                da >= db + 1,
                p >= 1,
        ;
        assert(false);
    } else {
        assert((a.first() as int) == (b.first() as int));
        assert(str_num(ra) < str_num(rb));
        lemma_str_num_lt_implies_lex(ra, rb);
    }
}

/// The canonical character sequence of a timestamp is fourteen digits
/// whose numeric reading is the timestamp's positional value.
pub proof fn lemma_ymdhms_seq_num(y: int, m: int, d: int, h: int, mi: int, s: int)
    requires
        0 <= y < 10000,
        0 <= m < 100,
        0 <= d < 100,
        0 <= h < 100,
        0 <= mi < 100,
        0 <= s < 100,
    ensures
        all_digits(ymdhms_seq(y, m, d, h, mi, s)),
        ymdhms_seq(y, m, d, h, mi, s).len() == 14,
        str_num(ymdhms_seq(y, m, d, h, mi, s)) == ((((y * 100 + m) * 100 + d) * 100 + h) * 100
            + mi) * 100 + s,
{
    assert(pow10(0) == 1);
    assert(pow10(1) == 10);
    assert(pow10(2) == 100);
    assert(pow10(3) == 1000);
    assert(pow10(4) == 10000);
    lemma_all_digits_dec_digits(y, 4);
    lemma_all_digits_dec_digits(m, 2);
    lemma_all_digits_dec_digits(d, 2);
    lemma_all_digits_dec_digits(h, 2);
    lemma_all_digits_dec_digits(mi, 2);
    lemma_all_digits_dec_digits(s, 2);
    lemma_dec_digits_len(y, 4);
    lemma_dec_digits_len(m, 2);
    lemma_dec_digits_len(d, 2);
    lemma_dec_digits_len(h, 2);
    lemma_dec_digits_len(mi, 2);
    lemma_dec_digits_len(s, 2);
    lemma_str_num_dec_digits(y, 4);
    lemma_str_num_dec_digits(m, 2);
    lemma_str_num_dec_digits(d, 2);
    lemma_str_num_dec_digits(h, 2);
    lemma_str_num_dec_digits(mi, 2);
    lemma_str_num_dec_digits(s, 2);
    let sy = dec_digits(y, 4);
    let sm = dec_digits(m, 2);
    let sd = dec_digits(d, 2);
    let sh = dec_digits(h, 2);
    let smi = dec_digits(mi, 2);
    let ss = dec_digits(s, 2);
    lemma_all_digits_concat(sy, sm);
    lemma_str_num_concat(sy, sm);
    lemma_all_digits_concat(sy + sm, sd);
    lemma_str_num_concat(sy + sm, sd);
    lemma_all_digits_concat(sy + sm + sd, sh);
    lemma_str_num_concat(sy + sm + sd, sh);
    lemma_all_digits_concat(sy + sm + sd + sh, smi);
    lemma_str_num_concat(sy + sm + sd + sh, smi);
    lemma_all_digits_concat(sy + sm + sd + sh + smi, ss);
    lemma_str_num_concat(sy + sm + sd + sh + smi, ss);
}

/// Canonical keys order as their timestamps: when one timestamp's
/// positional value is smaller, its fourteen-digit form is
/// lexicographically smaller.
pub proof fn lemma_key_order(
    y1: int, m1: int, d1: int, h1: int, mi1: int, s1: int,
    y2: int, m2: int, d2: int, h2: int, mi2: int, s2: int,
)
    requires
        0 <= y1 < 10000,
        0 <= m1 < 100,
        0 <= d1 < 100,
        0 <= h1 < 100,
        0 <= mi1 < 100,
        0 <= s1 < 100,
        0 <= y2 < 10000,
        0 <= m2 < 100,
        0 <= d2 < 100,
        0 <= h2 < 100,
        0 <= mi2 < 100,
        0 <= s2 < 100,
        ((((y1 * 100 + m1) * 100 + d1) * 100 + h1) * 100 + mi1) * 100 + s1 < ((((y2 * 100 + m2)
            * 100 + d2) * 100 + h2) * 100 + mi2) * 100 + s2,
    ensures
        lex_lt(ymdhms_seq(y1, m1, d1, h1, mi1, s1), ymdhms_seq(y2, m2, d2, h2, mi2, s2)),
{
    lemma_ymdhms_seq_num(y1, m1, d1, h1, mi1, s1);
    lemma_ymdhms_seq_num(y2, m2, d2, h2, mi2, s2);
    lemma_str_num_lt_implies_lex(
        ymdhms_seq(y1, m1, d1, h1, mi1, s1),
        ymdhms_seq(y2, m2, d2, h2, mi2, s2),
    );
}

impl YearMonthDayHourMinuteSecond {
    /// Wraps an already-canonical timestamp string.
    pub fn new(v: String) -> (r: Self)
        ensures
            r@ == v@,
    {
        YearMonthDayHourMinuteSecond(v)
    }

    /// Reconstructs the canonical timestamp from a year-month and the
    /// calendar API's truncated day-hour-minute-second integer, whose
    /// decimal form lost its leading zeros on the wire. The integer is
    /// rendered as exactly eight zero-padded digits, whatever its natural
    /// width.
    pub fn from_ym_and_dhms_as_u32(ym: &YearMonth, i: u32) -> (r: Self)
        requires
            ym.wf(),
            i < 100_000_000,
        ensures
            r@ == dec_digits(ym.year as int, 4) + dec_digits(ym.month as int, 2) + dec_digits(
                i as int,
                8,
            ),
    {
        let mut s = String::new();
        append_decimal_padded(&mut s, ym.year as u32, 4);
        append_decimal_padded(&mut s, ym.month, 2);
        append_decimal_padded(&mut s, i, 8);
        assert(s@ =~= dec_digits(ym.year as int, 4) + dec_digits(ym.month as int, 2) + dec_digits(
            i as int,
            8,
        ));
        YearMonthDayHourMinuteSecond(s)
    }

    /// The fourteen-character canonical form, used verbatim as the archive
    /// fetch path segment and as the stored file's name stem.
    pub fn as_wbm_datetime_str(&self) -> (r: &str)
        ensures
            r@ == self@,
    {
        self.0.as_str()
    }

    /// Whether this timestamp is strictly before `other` in lexicographic
    /// (hence, for canonical keys, chronological) order.
    pub fn lt(&self, other: &Self) -> (r: bool)
        ensures
            r == lex_lt(self@, other@),
    {
        let a = self.0.as_str();
        let b = other.0.as_str();
        let na = a.unicode_len();
        let nb = b.unicode_len();
        let mut i: usize = 0;
        assert(a@.skip(0) =~= a@);
        assert(b@.skip(0) =~= b@);
        while i < na && i < nb
            invariant
                i <= na,
                i <= nb,
                na == a@.len(),
                nb == b@.len(),
                a@ == self@,
                b@ == other@,
                lex_lt(self@, other@) == lex_lt(a@.skip(i as int), b@.skip(i as int)),
            decreases na - i,
        {
            let ca = a.get_char(i);
            let cb = b.get_char(i);
            proof {
                assert(a@.skip(i as int).first() == a@[i as int]);
                assert(b@.skip(i as int).first() == b@[i as int]);
            }
            if (ca as u32) < (cb as u32) {
                return true;
            }
            if (ca as u32) > (cb as u32) {
                return false;
            }
            proof {
                assert(a@.skip(i as int).drop_first() =~= a@.skip(i + 1));
                assert(b@.skip(i as int).drop_first() =~= b@.skip(i + 1));
            }
            i = i + 1;
        }
        proof {
            if i < nb {
                assert(a@.skip(i as int).len() == 0);
                assert(b@.skip(i as int).len() > 0);
            } else {
                assert(b@.skip(i as int).len() == 0);
            }
        }
        i < nb
    }
}

} // verus!
