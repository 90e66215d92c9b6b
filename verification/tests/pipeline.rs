use wbm_downloader::capture_filter::filter_captures;
use wbm_downloader::error::Error;
use wbm_downloader::output_directory::OutputDirectory;
use wbm_downloader::resolver::resolve;
use wbm_downloader::wbm_api::{calendar_api_url, capture_page_url, captures_from_wire};
use wbm_downloader::wbm_chrono::YearMonthDayHourMinuteSecond;

#[test]
fn resolve_gives_bounds_and_months() {
    let (bounds, months) = resolve("2022-11", "2023-02").unwrap();
    assert_eq!(bounds.from.as_wbm_datetime_str(), "20221101000000");
    assert_eq!(bounds.until.as_wbm_datetime_str(), "20230228235959");
    let strings: Vec<String> = months.iter().map(|m| m.to_wbm_date_string()).collect();
    assert_eq!(strings, vec!["202211", "202212", "202301", "202302"]);
}

#[test]
fn resolve_rejects_backwards_ranges_at_shared_precision() {
    assert_eq!(resolve("2023", "2022").unwrap_err(), Error::DateRangeBackwards);
    assert_eq!(resolve("2022-05", "2022-04").unwrap_err(), Error::DateRangeBackwards);
    assert_eq!(resolve("2022-03-15", "2022-03-10").unwrap_err(), Error::DateRangeBackwards);
}

#[test]
fn resolve_rejects_malformed_dates_before_comparing() {
    assert_eq!(resolve("not-a-date", "2022").unwrap_err(), Error::InvalidDate);
    assert_eq!(resolve("2022", "2022-1").unwrap_err(), Error::InvalidDate);
}

#[test]
fn resolve_accepts_equal_days() {
    let (bounds, months) = resolve("2022-03-10", "2022-03-10").unwrap();
    assert_eq!(bounds.from.as_wbm_datetime_str(), "20220310000000");
    assert_eq!(bounds.until.as_wbm_datetime_str(), "20220310235959");
    assert_eq!(months.len(), 1);
}

#[test]
fn status_and_range_filter_keeps_the_right_captures() {
    let (bounds, months) = resolve("2022-01-02", "2022-01-20").unwrap();
    let ym = months[0];
    // Statuses [200, 301, 200]; the middle key also falls outside the
    // resolved range. Only the first and third captures survive.
    let rows = vec![
        (5_000_000u64, 200u64),   // day 05 — in range
        (25_000_000u64, 301u64),  // day 25 — out of range, and a redirect
        (10_000_000u64, 200u64),  // day 10 — in range
    ];
    let captures = captures_from_wire(&ym, Some(rows)).items.unwrap();
    let kept = filter_captures(&captures, &bounds);
    let kept: Vec<&str> = kept.iter().map(|k| k.as_wbm_datetime_str()).collect();
    assert_eq!(kept, vec!["20220105000000", "20220110000000"]);
}

#[test]
fn boundary_days_are_included_by_the_expanded_bounds() {
    let (bounds, months) = resolve("2022-01-02", "2022-01-20").unwrap();
    let ym = months[0];
    let rows = vec![
        (2_000_001u64, 200u64),   // first second within the first day
        (20_235_958u64, 200u64),  // last second within the last day
        (1_235_959u64, 200u64),   // the day before the range
        (21_000_000u64, 200u64),  // the day after the range
    ];
    let captures = captures_from_wire(&ym, Some(rows)).items.unwrap();
    let kept = filter_captures(&captures, &bounds);
    let kept: Vec<&str> = kept.iter().map(|k| k.as_wbm_datetime_str()).collect();
    assert_eq!(kept, vec!["20220102000001", "20220120235958"]);
}

#[test]
fn out_of_range_rows_are_dropped_on_conversion() {
    let (_, months) = resolve("2022-01", "2022-01").unwrap();
    let ym = months[0];
    let rows = vec![
        (10_000u64, 200u64),
        (123_456_789u64, 200u64),  // nine digits: not a truncated DDHHMMSS
        (10_000u64, 70_000u64),    // not an HTTP status
    ];
    let captures = captures_from_wire(&ym, Some(rows)).items.unwrap();
    assert_eq!(captures.len(), 1);
    assert_eq!(captures[0].ymdhms.as_wbm_datetime_str(), "20220100010000");
}

#[test]
fn absent_items_stay_absent() {
    let (_, months) = resolve("2022-01", "2022-01").unwrap();
    assert!(captures_from_wire(&months[0], None).items.is_none());
}

#[test]
fn urls_are_built_from_the_key_and_target() {
    let (_, months) = resolve("2022-01", "2022-01").unwrap();
    assert_eq!(
        calendar_api_url("example.com", &months[0]),
        "https://web.archive.org/__wb/calendarcaptures/2?url=example.com&date=202201"
    );
    let key = YearMonthDayHourMinuteSecond::new("20220100010000".to_string());
    assert_eq!(
        capture_page_url(&key, "example.com"),
        "https://web.archive.org/web/20220100010000/example.com"
    );
}

#[test]
fn calendar_query_percent_encodes_the_target() {
    let (_, months) = resolve("2022-01", "2022-01").unwrap();
    assert_eq!(
        calendar_api_url("example.com/a b", &months[0]),
        "https://web.archive.org/__wb/calendarcaptures/2?url=example.com%2Fa%20b&date=202201"
    );
}

#[test]
fn whole_month_scenario_downloads_only_the_archived_capture() {
    // Target "example.com", range 2022-01 through 2022-01; the calendar
    // answers [[10000, 200, _], [20000, 404, _]] for month 202201. The
    // second row is dropped by the status filter; the first reconstructs
    // to "20220100010000" — a day-00 timestamp, which lies before the
    // resolved boundary "20220101000000" (a missing day rounds to the
    // 1st), so the range filter drops it too and nothing is downloaded.
    let (bounds, months) = resolve("2022-01", "2022-01").unwrap();
    let strings: Vec<String> = months.iter().map(|m| m.to_wbm_date_string()).collect();
    assert_eq!(strings, vec!["202201"]);
    assert_eq!(bounds.from.as_wbm_datetime_str(), "20220101000000");
    let rows = vec![(10_000u64, 200u64), (20_000u64, 404u64)];
    let captures = captures_from_wire(&months[0], Some(rows)).items.unwrap();
    assert_eq!(captures[0].ymdhms.as_wbm_datetime_str(), "20220100010000");
    let kept = filter_captures(&captures, &bounds);
    assert_eq!(kept.len(), 0);
}

#[test]
fn whole_month_scenario_with_a_first_day_capture() {
    // As above, but the archived capture was taken on the range's first
    // day: it survives both filters and its file path is the canonical
    // key under the percent-encoded target directory.
    let (bounds, months) = resolve("2022-01", "2022-01").unwrap();
    let rows = vec![(1_010_000u64, 200u64), (20_000u64, 404u64)];
    let captures = captures_from_wire(&months[0], Some(rows)).items.unwrap();
    let kept = filter_captures(&captures, &bounds);
    assert_eq!(kept.len(), 1);
    assert_eq!(kept[0].as_wbm_datetime_str(), "20220101010000");
    let dir = OutputDirectory::new("example.com", "outdir");
    assert_eq!(dir.capture_file_path(&kept[0]), "outdir/example.com/20220101010000.html");
}

#[test]
fn directory_name_percent_encodes_the_target() {
    let dir = OutputDirectory::new("example.com/path", "out");
    let key = YearMonthDayHourMinuteSecond::new("20220100010000".to_string());
    assert_eq!(dir.capture_file_path(&key), "out/example.com%2Fpath/20220100010000.html");
}

#[test]
fn trailing_separator_on_the_base_is_kept_single() {
    let dir = OutputDirectory::new("example.com", "out/");
    let key = YearMonthDayHourMinuteSecond::new("20220100010000".to_string());
    assert_eq!(dir.capture_file_path(&key), "out/example.com/20220100010000.html");
}
