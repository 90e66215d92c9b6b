//! The wire-level shape of the Wayback Machine API: the calendar query and
//! per-capture download URLs, and the conversion of the calendar response's
//! raw rows into captures with reconstructed canonical timestamps. The
//! network calls themselves live outside the library; everything here is a
//! pure function of its inputs.
use vstd::prelude::*;

use crate::wbm_chrono::year_month::{ym_seq, YearMonth};
use crate::wbm_chrono::year_month_day_hour_minute_second::YearMonthDayHourMinuteSecond;
use crate::digits::dec_digits;

verus! {

/// One capture of the target URL, as reported by the calendar API.
pub struct Capture {
    /// The reconstructed canonical timestamp of the capture. The wire
    /// format carries only the truncated day-hour-minute-second integer;
    /// its maximum meaningful value is 31,245,959.
    pub ymdhms: YearMonthDayHourMinuteSecond,
    /// The HTTP status of the page when the capture was taken.
    pub status: u16,
}

/// One month's worth of captures; `items` is absent when the calendar API
/// reported none for the month.
pub struct CalendarCaptures {
    pub items: Option<Vec<Capture>>,
}

/// What `urlencoding::encode` returns for a string: every byte percent-
/// encoded except alphanumerics and `-`, `_`, `.`, `~`. The result depends
/// on the characters alone.
pub uninterp spec fn url_encoded(s: Seq<char>) -> Seq<char>;

/// Relies on `urlencoding::encode`: percent-encodes every byte of its
/// argument except alphanumerics and `-`, `_`, `.`, `~`.
#[verifier::external_body]
pub(crate) fn url_encode(s: &str) -> (r: String)
    ensures
        r@ == url_encoded(s@),
{
    urlencoding::encode(s).into_owned()
}

/// The canonical timestamp character sequence reconstructed from a
/// year-month and a truncated day-hour-minute-second integer.
pub open spec fn wire_key(ym: YearMonth, dhms: int) -> Seq<char> {
    ym_seq(ym) + dec_digits(dhms, 8)
}

/// A reconstructed timestamp is always the full fourteen characters, for
/// every truncated integer — a narrow integer is padded, never collapsed
/// into a shorter key.
pub proof fn lemma_wire_key_len(ym: YearMonth, dhms: int)
    ensures
        wire_key(ym, dhms).len() == 14,
{
    crate::digits::lemma_dec_digits_len(ym.year as int, 4);
    crate::digits::lemma_dec_digits_len(ym.month as int, 2);
    crate::digits::lemma_dec_digits_len(dhms, 8);
}

/// The `(timestamp, status)` pairs a month's raw calendar rows convert to:
/// rows whose day-hour-minute-second field does not fit in eight digits or
/// whose status does not fit an HTTP status integer are dropped.
pub open spec fn spec_wire_captures(ym: YearMonth, rows: Seq<(u64, u64)>) -> Seq<(Seq<char>, int)>
    decreases rows.len(),
{
    if rows.len() == 0 {
        Seq::empty()
    } else {
        let rest = spec_wire_captures(ym, rows.drop_last());
        let row = rows.last();
        if row.0 < 100_000_000 && row.1 <= u16::MAX {
            rest.push((wire_key(ym, row.0 as int), row.1 as int))
        } else {
            rest
        }
    }
}

/// Converts one raw calendar row into a capture: the truncated integer is
/// reconstructed into a full canonical timestamp. `None` when the row's
/// fields are out of range for a timestamp or an HTTP status.
pub fn capture_from_raw(year_month: &YearMonth, dhms: u64, status: u64) -> (r: Option<Capture>)
    requires
        year_month.wf(),
    ensures
        r is Some <==> dhms < 100_000_000 && status <= u16::MAX,
        r matches Some(c) ==> c.ymdhms@ == wire_key(*year_month, dhms as int) && c.status
            == status,
{
    if dhms < 100_000_000 && status <= 65535 {
        let ymdhms = YearMonthDayHourMinuteSecond::from_ym_and_dhms_as_u32(
            year_month,
            dhms as u32,
        );
        Some(Capture { ymdhms, status: status as u16 })
    } else {
        None
    }
}

/// Converts a month's raw calendar rows, as decoded from the response
/// body, into captures; rows with out-of-range fields are dropped.
pub fn captures_from_wire(year_month: &YearMonth, raw_items: Option<Vec<(u64, u64)>>) -> (r:
    CalendarCaptures)
    requires
        year_month.wf(),
    ensures
        r.items is Some <==> raw_items is Some,
        raw_items matches Some(rows) ==> r.items matches Some(cs) && cs@.map_values(
            |c: Capture| (c.ymdhms@, c.status as int),
        ) == spec_wire_captures(*year_month, rows@),
{
    match raw_items {
        None => CalendarCaptures { items: None },
        Some(rows) => {
            let mut out: Vec<Capture> = Vec::new();
            let mut i: usize = 0;
            assert(rows@.subrange(0, 0) =~= Seq::<(u64, u64)>::empty());
            assert(out@.map_values(|c: Capture| (c.ymdhms@, c.status as int))
                =~= spec_wire_captures(*year_month, rows@.subrange(0, 0)));
            while i < rows.len()
                invariant
                    i <= rows@.len(),
                    year_month.wf(),
                    out@.map_values(|c: Capture| (c.ymdhms@, c.status as int))
                        == spec_wire_captures(*year_month, rows@.subrange(0, i as int)),
                decreases rows@.len() - i,
            {
                let (dhms, status) = rows[i];
                let ghost pre = out@;
                match capture_from_raw(year_month, dhms, status) {
                    Some(c) => {
                        out.push(c);
                    },
                    None => {},
                }
                proof {
                    let f = |c: Capture| (c.ymdhms@, c.status as int);
                    assert(rows@.subrange(0, i + 1).drop_last() =~= rows@.subrange(0, i as int));
                    assert(rows@.subrange(0, i + 1).last() == rows@[i as int]);
                    assert(out@.map_values(f) =~= spec_wire_captures(
                        *year_month,
                        rows@.subrange(0, i + 1),
                    )) by {
                        if out@.len() > pre.len() {
                            assert(out@.drop_last() == pre);
                            assert(out@.map_values(f) =~= pre.map_values(f).push(f(out@.last())));
                        }
                    }
                }
                i = i + 1;
            }
            assert(rows@.subrange(0, rows@.len() as int) =~= rows@);
            CalendarCaptures { items: Some(out) }
        },
    }
}

/// The calendar-captures query URL for one month of the target URL's
/// history: the target percent-encoded, the month as `YYYYMM`.
pub fn calendar_api_url(url: &str, year_month: &YearMonth) -> (r: String)
    requires
        year_month.wf(),
    ensures
        r@ == "https://web.archive.org/__wb/calendarcaptures/2?url="@ + url_encoded(url@)
            + "&date="@ + ym_seq(*year_month),
{
    let mut s = String::from_str("https://web.archive.org/__wb/calendarcaptures/2?url=");
    let encoded = url_encode(url);
    s.append(encoded.as_str());
    s.append("&date=");
    let date = year_month.to_wbm_date_string();
    s.append(date.as_str());
    assert(s@ =~= "https://web.archive.org/__wb/calendarcaptures/2?url="@ + url_encoded(url@)
        + "&date="@ + ym_seq(*year_month));
    s
}

/// The download URL of one capture's archived page: the canonical
/// timestamp, then the target URL.
pub fn capture_page_url(ymdhms: &YearMonthDayHourMinuteSecond, url: &str) -> (r: String)
    ensures
        r@ == "https://web.archive.org/web/"@ + ymdhms@ + "/"@ + url@,
{
    let mut s = String::from_str("https://web.archive.org/web/");
    s.append(ymdhms.as_wbm_datetime_str());
    s.append("/");
    s.append(url);
    assert(s@ =~= "https://web.archive.org/web/"@ + ymdhms@ + "/"@ + url@);
    s
}

} // verus!
