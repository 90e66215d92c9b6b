use wbm_downloader::wbm_chrono::{YearMonth, YearMonthDayHourMinuteSecond};

#[test]
fn narrow_truncated_integer_is_padded_to_eight_digits() {
    let ym = YearMonth { year: 2022, month: 1 };
    let key = YearMonthDayHourMinuteSecond::from_ym_and_dhms_as_u32(&ym, 1);
    assert_eq!(key.as_wbm_datetime_str(), "20220100000001");
    assert_eq!(key.as_wbm_datetime_str().len(), 14);
}

#[test]
fn full_width_truncated_integer_is_kept_verbatim() {
    let ym = YearMonth { year: 2022, month: 1 };
    let key = YearMonthDayHourMinuteSecond::from_ym_and_dhms_as_u32(&ym, 12123456);
    assert_eq!(key.as_wbm_datetime_str(), "20220112123456");
}

#[test]
fn seven_digit_truncated_integer_gains_its_leading_zero() {
    let ym = YearMonth { year: 2022, month: 3 };
    let key = YearMonthDayHourMinuteSecond::from_ym_and_dhms_as_u32(&ym, 2123456);
    assert_eq!(key.as_wbm_datetime_str(), "20220302123456");
}

#[test]
fn zero_truncated_integer_is_all_zeros() {
    let ym = YearMonth { year: 2022, month: 12 };
    let key = YearMonthDayHourMinuteSecond::from_ym_and_dhms_as_u32(&ym, 0);
    assert_eq!(key.as_wbm_datetime_str(), "20221200000000");
}

#[test]
fn keys_order_chronologically() {
    let ym = YearMonth { year: 2022, month: 1 };
    let early = YearMonthDayHourMinuteSecond::from_ym_and_dhms_as_u32(&ym, 1);
    let late = YearMonthDayHourMinuteSecond::from_ym_and_dhms_as_u32(&ym, 12123456);
    assert!(early.lt(&late));
    assert!(!late.lt(&early));
    assert!(!early.lt(&early));
}

#[test]
fn new_wraps_a_canonical_string() {
    let key = YearMonthDayHourMinuteSecond::new("20220101000000".to_string());
    assert_eq!(key.as_wbm_datetime_str(), "20220101000000");
}

#[test]
fn year_month_date_string_is_zero_padded() {
    assert_eq!(YearMonth { year: 2022, month: 3 }.to_wbm_date_string(), "202203");
    assert_eq!(YearMonth { year: 2022, month: 11 }.to_wbm_date_string(), "202211");
    assert_eq!(YearMonth { year: 850, month: 7 }.to_wbm_date_string(), "085007");
}
