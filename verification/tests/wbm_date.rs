use std::collections::HashSet;

use wbm_downloader::error::Error;
use wbm_downloader::wbm_date::{get_months_between_dates, to_wbm_date, RangePart};

fn months(from: &str, until: &str) -> HashSet<String> {
    get_months_between_dates(from, until).into_iter().collect()
}

#[test]
fn month_range_same_month() {
    let expected = HashSet::from(["202203"].map(|ym| ym.to_string()));
    let actual = months("20220301", "20220320");
    assert_eq!(expected, actual);
}

#[test]
fn month_range_within_a_year() {
    let expected = HashSet::from(["202201", "202202", "202203"].map(|ym| ym.to_string()));
    let actual = months("20220101", "20220301");
    assert_eq!(expected, actual);
}

#[test]
fn month_range_within_across_one_year() {
    let expected = HashSet::from(["202212", "202301"].map(|ym| ym.to_string()));
    let actual = months("20221201", "20230101");
    assert_eq!(expected, actual);
}

#[test]
fn month_range_within_across_two_years() {
    let expected = HashSet::from(
        [
            "202211", "202212", "202301", "202302", "202303", "202304", "202305", "202306",
            "202307", "202308", "202309", "202310", "202311", "202312", "202401", "202402",
        ]
        .map(|ym| ym.to_string()),
    );
    let actual = months("20221101", "20240201");
    assert_eq!(expected, actual);
}

#[test]
fn month_range_is_ascending_without_duplicates() {
    let v = get_months_between_dates("20221101", "20230201");
    assert_eq!(v, vec!["202211", "202212", "202301", "202302"]);
}

#[test]
fn to_wbm_date_full_date_passes_through() {
    assert_eq!(to_wbm_date(RangePart::From, "2022-03-20".to_string()).unwrap(), "20220320");
    assert_eq!(to_wbm_date(RangePart::Until, "20220320".to_string()).unwrap(), "20220320");
}

#[test]
fn to_wbm_date_month_is_completed_with_zero_padded_day() {
    assert_eq!(to_wbm_date(RangePart::From, "2022-03".to_string()).unwrap(), "20220301");
    assert_eq!(to_wbm_date(RangePart::Until, "2022-03".to_string()).unwrap(), "20220331");
    assert_eq!(to_wbm_date(RangePart::Until, "2024-02".to_string()).unwrap(), "20240229");
    assert_eq!(to_wbm_date(RangePart::Until, "2023-02".to_string()).unwrap(), "20230228");
}

#[test]
fn to_wbm_date_year_is_completed_to_range_ends() {
    assert_eq!(to_wbm_date(RangePart::From, "2022".to_string()).unwrap(), "20220101");
    assert_eq!(to_wbm_date(RangePart::Until, "2022".to_string()).unwrap(), "20221231");
}

#[test]
fn to_wbm_date_rejects_malformed_strings() {
    assert_eq!(to_wbm_date(RangePart::From, "2022-13".to_string()), Err(Error::InvalidDate));
    assert_eq!(to_wbm_date(RangePart::From, "22".to_string()), Err(Error::InvalidDate));
    assert_eq!(to_wbm_date(RangePart::From, "2022-".to_string()), Err(Error::InvalidDate));
    assert_eq!(to_wbm_date(RangePart::From, "2022-1".to_string()), Err(Error::InvalidDate));
}
