//! Fixed-width decimal strings: the spec-level model of zero-padded decimal
//! rendering and of reading fixed-width digit fields, together with verified
//! executable routines for both directions. Every canonical date and
//! timestamp string in this crate is specified in terms of [`dec_digits`].
use vstd::prelude::*;

verus! {

/// The character for a single decimal digit value.
pub open spec fn digit_char(d: int) -> char {
    if d == 0 {
        '0'
    } else if d == 1 {
        '1'
    } else if d == 2 {
        '2'
    } else if d == 3 {
        '3'
    } else if d == 4 {
        '4'
    } else if d == 5 {
        '5'
    } else if d == 6 {
        '6'
    } else if d == 7 {
        '7'
    } else if d == 8 {
        '8'
    } else {
        '9'
    }
}

/// Whether a character is a decimal digit.
pub open spec fn is_digit_char(c: char) -> bool {
    48 <= c as int && c as int <= 57
}

/// The value of a decimal digit character.
pub open spec fn digit_val(c: char) -> int {
    c as int - 48
}

/// Whether every character of a sequence is a decimal digit.
pub open spec fn all_digits(s: Seq<char>) -> bool {
    forall|i: int| 0 <= i < s.len() ==> is_digit_char(#[trigger] s[i])
}

/// The numeric value of a digit string, most significant digit first.
pub open spec fn str_num(s: Seq<char>) -> int
    decreases s.len(),
{
    if s.len() == 0 {
        0
    } else {
        str_num(s.drop_last()) * 10 + digit_val(s.last())
    }
}

/// Powers of ten, the place values of decimal strings.
pub open spec fn pow10(n: nat) -> int
    decreases n,
{
    if n == 0 {
        1
    } else {
        10 * pow10((n - 1) as nat)
    }
}

pub proof fn lemma_pow10_pos(n: nat)
    ensures
        pow10(n) >= 1,
    decreases n,
{
    if n > 0 {
        lemma_pow10_pos((n - 1) as nat);
    }
}

/// A digit string's value is non-negative and below the place value just
/// past its width.
pub proof fn lemma_str_num_bound(t: Seq<char>)
    requires
        all_digits(t),
    ensures
        0 <= str_num(t) < pow10(t.len()),
    decreases t.len(),
{
    if t.len() == 0 {
    } else {
        let d = t.drop_last();
        assert forall|i: int| 0 <= i < d.len() implies is_digit_char(#[trigger] d[i]) by {
            assert(d[i] == t[i]);
        }
        lemma_str_num_bound(d);
        assert(is_digit_char(t.last()));
        lemma_pow10_pos((t.len() - 1) as nat);
    }
}

/// The value of a concatenation: the left part shifted by the right
/// part's width, plus the right part.
pub proof fn lemma_str_num_concat(a: Seq<char>, b: Seq<char>)
    ensures
        str_num(a + b) == str_num(a) * pow10(b.len()) + str_num(b),
    decreases b.len(),
{
    if b.len() == 0 {
        assert(a + b =~= a);
    } else {
        lemma_str_num_concat(a, b.drop_last());
        assert((a + b).drop_last() =~= a + b.drop_last());
        assert((a + b).last() == b.last());
        assert(str_num(a) * (10 * pow10((b.len() - 1) as nat)) == (str_num(a) * pow10(
            (b.len() - 1) as nat,
        )) * 10) by (nonlinear_arith);
    }
}

pub proof fn lemma_all_digits_concat(a: Seq<char>, b: Seq<char>)
    requires
        all_digits(a),
        all_digits(b),
    ensures
        all_digits(a + b),
{
    assert forall|i: int| 0 <= i < (a + b).len() implies is_digit_char(#[trigger] (a + b)[i]) by {
        if i < a.len() {
            assert((a + b)[i] == a[i]);
        } else {
            assert((a + b)[i] == b[i - a.len()]);
        }
    }
}

/// Zero-padded renderings consist of digits only.
pub proof fn lemma_all_digits_dec_digits(v: int, width: nat)
    requires
        0 <= v,
    ensures
        all_digits(dec_digits(v, width)),
    decreases width,
{
    if width > 0 {
        lemma_all_digits_dec_digits(v / 10, (width - 1) as nat);
        lemma_dec_digits_len(v / 10, (width - 1) as nat);
        let s = dec_digits(v, width);
        let d = dec_digits(v / 10, (width - 1) as nat);
        assert forall|i: int| 0 <= i < s.len() implies is_digit_char(#[trigger] s[i]) by {
            if i < s.len() - 1 {
                assert(s[i] == d[i]);
            } else {
                assert(s[i] == digit_char(v % 10));
            }
        }
    }
}

/// Rendering a value that fits the width and reading the digits back is
/// the identity.
pub proof fn lemma_str_num_dec_digits(v: int, width: nat)
    requires
        0 <= v < pow10(width),
    ensures
        str_num(dec_digits(v, width)) == v,
    decreases width,
{
    if width == 0 {
    } else {
        assert(v / 10 < pow10((width - 1) as nat)) by (nonlinear_arith)
            requires
                0 <= v,
                v < 10 * pow10((width - 1) as nat),
        ;
        lemma_str_num_dec_digits(v / 10, (width - 1) as nat);
        lemma_dec_digits_len(v / 10, (width - 1) as nat);
        let s = dec_digits(v, width);
        let d = dec_digits(v / 10, (width - 1) as nat);
        assert(s.drop_last() =~= d);
        assert(s.last() == digit_char(v % 10));
        assert(digit_val(digit_char(v % 10)) == v % 10);
        assert(str_num(s) == str_num(d) * 10 + (v % 10));
    }
}

pub proof fn lemma_str_num_len4_bound(t: Seq<char>)
    requires
        all_digits(t),
        t.len() == 4,
    ensures
        0 <= str_num(t) < 10000,
{
    let t3 = t.drop_last();
    let t2 = t3.drop_last();
    let t1 = t2.drop_last();
    let t0 = t1.drop_last();
    assert(is_digit_char(t[0]) && is_digit_char(t[1]) && is_digit_char(t[2]) && is_digit_char(
        t[3],
    ));
    assert(t1[0] == t[0] && t2[1] == t[1] && t3[2] == t[2]);
    assert(str_num(t0) == 0);
    assert(str_num(t1) == digit_val(t[0]));
    assert(str_num(t2) == digit_val(t[0]) * 10 + digit_val(t[1]));
    assert(str_num(t3) == str_num(t2) * 10 + digit_val(t[2]));
    assert(str_num(t) == str_num(t3) * 10 + digit_val(t[3]));
}

/// The last `width` decimal digits of `v`, zero-padded to exactly `width`
/// characters. For `0 <= v < 10^width` this is the canonical unconditional
/// zero-padded rendering of `v`.
pub open spec fn dec_digits(v: int, width: nat) -> Seq<char>
    decreases width,
{
    if width == 0 {
        Seq::empty()
    } else {
        dec_digits(v / 10, (width - 1) as nat).push(digit_char(v % 10))
    }
}

pub proof fn lemma_dec_digits_len(v: int, width: nat)
    ensures
        dec_digits(v, width).len() == width,
    decreases width,
{
    if width > 0 {
        lemma_dec_digits_len(v / 10, (width - 1) as nat);
    }
}

/// The digit characters of a digit-value sequence, least significant first,
/// rendered most significant first.
spec fn rev_digit_chars(s: Seq<u8>) -> Seq<char>
    decreases s.len(),
{
    if s.len() == 0 {
        Seq::empty()
    } else {
        seq![digit_char(s.last() as int)] + rev_digit_chars(s.drop_last())
    }
}

/// The one-character string for a digit value.
fn digit_str(d: u8) -> (r: &'static str)
    requires
        d < 10,
    ensures
        r@ =~= seq![digit_char(d as int)],
{
    proof {
        reveal_strlit("0");
        reveal_strlit("1");
        reveal_strlit("2");
        reveal_strlit("3");
        reveal_strlit("4");
        reveal_strlit("5");
        reveal_strlit("6");
        reveal_strlit("7");
        reveal_strlit("8");
        reveal_strlit("9");
    }
    match d {
        0 => "0",
        1 => "1",
        2 => "2",
        3 => "3",
        4 => "4",
        5 => "5",
        6 => "6",
        7 => "7",
        8 => "8",
        _ => "9",
    }
}

/// Appends the last `width` decimal digits of `v` to `out`, zero-padded to
/// exactly `width` characters.
pub fn append_decimal_padded(out: &mut String, v: u32, width: usize)
    ensures
        final(out)@ == old(out)@ + dec_digits(v as int, width as nat),
{
    let ghost out0 = out@;
    let mut rev: Vec<u8> = Vec::new();
    let mut x: u32 = v;
    let mut w: usize = width;
    assert(dec_digits(v as int, width as nat) =~= dec_digits(v as int, width as nat)
        + rev_digit_chars(rev@));
    while w > 0
        invariant
            rev@.len() + w == width,
            forall|k: int| 0 <= k < rev@.len() ==> #[trigger] rev@[k] < 10,
            dec_digits(v as int, width as nat) =~= dec_digits(x as int, w as nat)
                + rev_digit_chars(rev@),
        decreases w,
    {
        let d: u8 = (x % 10) as u8;
        proof {
            assert(rev@.push(d).drop_last() =~= rev@);
            assert(rev_digit_chars(rev@.push(d)) =~= seq![digit_char(d as int)]
                + rev_digit_chars(rev@));
            assert(dec_digits(x as int, w as nat) + rev_digit_chars(rev@) =~= dec_digits(
                x as int / 10,
                (w - 1) as nat,
            ) + rev_digit_chars(rev@.push(d)));
        }
        rev.push(d);
        x = x / 10;
        w = w - 1;
    }
    assert(dec_digits(v as int, width as nat) =~= rev_digit_chars(rev@));
    let mut i: usize = rev.len();
    assert(rev@.subrange(0, i as int) =~= rev@);
    while i > 0
        invariant
            i <= rev@.len(),
            forall|k: int| 0 <= k < rev@.len() ==> #[trigger] rev@[k] < 10,
            out@ + rev_digit_chars(rev@.subrange(0, i as int)) == out0 + rev_digit_chars(rev@),
        decreases i,
    {
        i = i - 1;
        let ghost pre = out@;
        out.append(digit_str(rev[i]));
        proof {
            let sub = rev@.subrange(0, i + 1);
            assert(sub.drop_last() =~= rev@.subrange(0, i as int));
            assert(sub.last() == rev@[i as int]);
            assert(pre + rev_digit_chars(sub) =~= out@ + rev_digit_chars(
                rev@.subrange(0, i as int),
            ));
        }
    }
    assert(rev_digit_chars(rev@.subrange(0, 0)) =~= Seq::<char>::empty());
    assert(out@ =~= out0 + rev_digit_chars(rev@));
}

/// Reads the two-character decimal field of `s` starting at `at`; `None`
/// when either character is not a digit.
pub fn parse_two_digits(s: &str, at: usize) -> (r: Option<u32>)
    requires
        s@.len() <= usize::MAX,
        at + 2 <= s@.len(),
    ensures
        r is Some <==> all_digits(s@.subrange(at as int, at + 2)),
        r matches Some(v) ==> v == str_num(s@.subrange(at as int, at + 2)) && v < 100,
{
    let ghost t = s@.subrange(at as int, at + 2);
    let c0 = s.get_char(at);
    let c1 = s.get_char(at + 1);
    let u0 = c0 as u32;
    let u1 = c1 as u32;
    proof {
        assert(t[0] == s@[at as int]);
        assert(t[1] == s@[at + 1]);
    }
    if 48 <= u0 && u0 <= 57 && 48 <= u1 && u1 <= 57 {
        proof {
            assert forall|i: int| 0 <= i < t.len() implies is_digit_char(#[trigger] t[i]) by {
                assert(i == 0 || i == 1);
            }
            assert(t.drop_last() =~= s@.subrange(at as int, at + 1));
            assert(t.drop_last().drop_last() =~= s@.subrange(at as int, at as int));
            assert(str_num(t.drop_last().drop_last()) == 0);
            assert(t.drop_last().last() == t[0]);
            assert(str_num(t.drop_last()) == digit_val(t[0]));
            assert(str_num(t) == digit_val(t[0]) * 10 + digit_val(t[1]));
        }
        Some((u0 - 48) * 10 + (u1 - 48))
    } else {
        proof {
            assert(!is_digit_char(t[0]) || !is_digit_char(t[1]));
        }
        None
    }
}

/// Reads the four-character decimal field of `s` starting at `at`; `None`
/// when any character is not a digit.
pub fn parse_four_digits(s: &str, at: usize) -> (r: Option<u32>)
    requires
        s@.len() <= usize::MAX,
        at + 4 <= s@.len(),
    ensures
        r is Some <==> all_digits(s@.subrange(at as int, at + 4)),
        r matches Some(v) ==> v == str_num(s@.subrange(at as int, at + 4)) && v < 10000,
{
    let ghost t = s@.subrange(at as int, at + 4);
    proof {
        assert(forall|i: int| 0 <= i < 4 ==> t[i] == s@[at + i]);
    }
    let hi = parse_two_digits(s, at);
    let lo = parse_two_digits(s, at + 2);
    proof {
        assert(s@.subrange(at as int, at + 2) =~= t.subrange(0, 2));
        assert(s@.subrange(at + 2, at + 4) =~= t.subrange(2, 4));
    }
    match (hi, lo) {
        (Some(h), Some(l)) => {
            proof {
                assert forall|i: int| 0 <= i < t.len() implies is_digit_char(#[trigger] t[i]) by {
                    if i < 2 {
                        assert(t.subrange(0, 2)[i] == t[i]);
                    } else {
                        assert(t.subrange(2, 4)[i - 2] == t[i]);
                    }
                }
                assert(t.drop_last() =~= s@.subrange(at as int, at + 3));
                assert(t.drop_last().drop_last() =~= s@.subrange(at as int, at + 2));
                let t3 = s@.subrange(at as int, at + 3);
                assert(t3.last() == t[2]);
                assert(t.last() == t[3]);
                assert(t.subrange(2, 4).drop_last() =~= t.subrange(2, 3));
                assert(t.subrange(2, 3).drop_last() =~= t.subrange(2, 2));
                assert(t.subrange(2, 3).last() == t[2]);
                assert(t.subrange(2, 4).last() == t[3]);
                assert(str_num(t.subrange(2, 2)) == 0);
                assert(str_num(t.subrange(2, 3)) == digit_val(t[2]));
                assert(str_num(t.subrange(2, 4)) == digit_val(t[2]) * 10 + digit_val(t[3]));
                assert(str_num(t3) == str_num(s@.subrange(at as int, at + 2)) * 10 + digit_val(
                    t[2],
                ));
                assert(str_num(t) == str_num(s@.subrange(at as int, at + 2)) * 100 + digit_val(
                    t[2],
                ) * 10 + digit_val(t[3]));
            }
            Some(h * 100 + l)
        },
        _ => {
            proof {
                if all_digits(t) {
                    assert forall|i: int| 0 <= i < 2 implies is_digit_char(
                        #[trigger] t.subrange(0, 2)[i],
                    ) by {
                        assert(t.subrange(0, 2)[i] == t[i]);
                    }
                    assert forall|i: int| 0 <= i < 2 implies is_digit_char(
                        #[trigger] t.subrange(2, 4)[i],
                    ) by {
                        assert(t.subrange(2, 4)[i] == t[i + 2]);
                    }
                    assert(all_digits(t.subrange(0, 2)));
                    assert(all_digits(t.subrange(2, 4)));
                }
            }
            None
        },
    }
}

} // verus!
