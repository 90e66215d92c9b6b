use wbm_downloader::error::Error;
use wbm_downloader::wbm_chrono::{PartialDateRoundingMode, YearMonth, YearMonthDay};

fn parse(s: &str, mode: PartialDateRoundingMode) -> YearMonthDay {
    YearMonthDay::from_str(s, mode).unwrap()
}

#[test]
fn floor_fills_missing_day_with_first() {
    let d = parse("2022-04", PartialDateRoundingMode::Floor);
    assert_eq!((d.year, d.month, d.day), (2022, 4, 1));
}

#[test]
fn floor_fills_missing_month_and_day_with_january_first() {
    let d = parse("2022", PartialDateRoundingMode::Floor);
    assert_eq!((d.year, d.month, d.day), (2022, 1, 1));
}

#[test]
fn ceiling_fills_missing_month_and_day_with_december_end() {
    let d = parse("2022", PartialDateRoundingMode::Ceiling);
    assert_eq!((d.year, d.month, d.day), (2022, 12, 31));
}

#[test]
fn ceiling_finds_leap_february_end() {
    let d = parse("2024-02", PartialDateRoundingMode::Ceiling);
    assert_eq!((d.year, d.month, d.day), (2024, 2, 29));
}

#[test]
fn ceiling_finds_common_february_end() {
    let d = parse("2023-02", PartialDateRoundingMode::Ceiling);
    assert_eq!((d.year, d.month, d.day), (2023, 2, 28));
}

#[test]
fn ceiling_finds_thirty_day_month_end() {
    let d = parse("2022-06", PartialDateRoundingMode::Ceiling);
    assert_eq!((d.year, d.month, d.day), (2022, 6, 30));
}

#[test]
fn dashes_are_optional() {
    let d = parse("20220415", PartialDateRoundingMode::Floor);
    assert_eq!((d.year, d.month, d.day), (2022, 4, 15));
    let d = parse("202204", PartialDateRoundingMode::Floor);
    assert_eq!((d.year, d.month, d.day), (2022, 4, 1));
}

#[test]
fn each_dash_is_optional_on_its_own() {
    let d = parse("2022-0415", PartialDateRoundingMode::Floor);
    assert_eq!((d.year, d.month, d.day), (2022, 4, 15));
    let d = parse("202204-15", PartialDateRoundingMode::Floor);
    assert_eq!((d.year, d.month, d.day), (2022, 4, 15));
}

#[test]
fn malformed_dates_are_rejected() {
    for bad in ["", "22", "2022-", "2022-1", "2022-00", "2022-13", "2022-01-32", "2022-01-00",
        "abcd", "2022-01-01x", "2022-01-"] {
        assert_eq!(
            YearMonthDay::from_str(bad, PartialDateRoundingMode::Floor),
            Err(Error::InvalidDate),
            "{bad} should be invalid"
        );
    }
}

#[test]
fn day_bounds_expand_to_full_timestamps() {
    let d = parse("2022-01-05", PartialDateRoundingMode::Floor);
    let start = d.to_year_month_day_hour_minute_second(PartialDateRoundingMode::Floor);
    let end = d.to_year_month_day_hour_minute_second(PartialDateRoundingMode::Ceiling);
    assert_eq!(start.as_wbm_datetime_str(), "20220105000000");
    assert_eq!(end.as_wbm_datetime_str(), "20220105235959");
}

#[test]
fn months_between_is_inclusive_and_contiguous() {
    let from = YearMonth { year: 2022, month: 11 };
    let until = YearMonth { year: 2023, month: 2 };
    let months = from.months_between_inclusive(&until).unwrap();
    let strings: Vec<String> = months.iter().map(|m| m.to_wbm_date_string()).collect();
    assert_eq!(strings, vec!["202211", "202212", "202301", "202302"]);
}

#[test]
fn months_between_single_month() {
    let ym = YearMonth { year: 2022, month: 3 };
    let months = ym.months_between_inclusive(&ym).unwrap();
    assert_eq!(months.len(), 1);
    assert_eq!(months[0], ym);
}

#[test]
fn months_between_backwards_is_an_error() {
    let from = YearMonth { year: 2023, month: 1 };
    let until = YearMonth { year: 2022, month: 12 };
    assert_eq!(from.months_between_inclusive(&until), Err(Error::DateRangeBackwards));
}
