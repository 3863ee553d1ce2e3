use chrono::{Datelike, NaiveDate};
use momentum::parse::trim_chars;
use momentum::tools::{accession_from_url, minute_aggs_key, most_recent_safe_weekday, most_recent_weekday, out_file_name, pad_cik};

fn d(y: i32, m: u32, day: u32) -> i32 {
    NaiveDate::from_ymd_opt(y, m, day).unwrap().num_days_from_ce()
}

#[test]
fn accession_numbers_come_from_the_url_tail() {
    assert_eq!(
        accession_from_url("https://api.polygon.io/v1/reference/sec/filings/0001564590-23-003413").as_deref(),
        Some("0001564590-23-003413")
    );
    assert_eq!(accession_from_url("no-slash").as_deref(), Some("no-slash"));
    assert_eq!(accession_from_url("trailing/").as_deref(), Some(""));
}

#[test]
fn ciks_are_zero_padded_to_ten() {
    assert_eq!(pad_cik("320193"), "0000320193");
    assert_eq!(pad_cik("0000320193"), "0000320193");
    assert_eq!(pad_cik("000"), "0000000000");
    assert_eq!(pad_cik("12345678901"), "12345678901");
}

#[test]
fn output_file_names_swap_the_extension() {
    assert_eq!(out_file_name("2024-01-03.csv.gz").as_deref(), Some("2024-01-03.parquet"));
    assert_eq!(out_file_name("2024-01-03.csv"), None);
}

#[test]
fn safe_weekdays_step_back_over_weekends() {
    // Monday 2024-01-08: two days back is Saturday, so Friday.
    assert_eq!(most_recent_safe_weekday(d(2024, 1, 8)), d(2024, 1, 5));
    // Thursday 2024-01-11: two days back is Tuesday.
    assert_eq!(most_recent_safe_weekday(d(2024, 1, 11)), d(2024, 1, 9));
    // Monday: yesterday is Sunday, back to Friday, one more back to Thursday.
    assert_eq!(most_recent_weekday(d(2024, 1, 8)), d(2024, 1, 4));
}

#[test]
fn flat_file_keys() {
    assert_eq!(
        minute_aggs_key(d(2024, 1, 3)).as_deref(),
        Some("us_stocks_sip/minute_aggs_v1/2024/01/2024-01-03.csv.gz")
    );
}

#[test]
fn trimming_strips_unicode_whitespace() {
    let t = trim_chars(&" \t3674\u{a0}\n".chars().collect());
    assert_eq!(t.into_iter().collect::<String>(), "3674");
}

#[test]
fn minute_aggs_key_pads_years_like_the_format_width() {
    let early = NaiveDate::from_ymd_opt(999, 3, 4).unwrap().num_days_from_ce();
    assert_eq!(
        minute_aggs_key(early).as_deref(),
        Some(format!("us_stocks_sip/minute_aggs_v1/{:04}/03/{}.csv.gz", 999, NaiveDate::from_ymd_opt(999, 3, 4).unwrap()).as_str())
    );
    let bc = NaiveDate::from_ymd_opt(-5, 1, 2).unwrap();
    let key = format!("us_stocks_sip/minute_aggs_v1/{:04}/{:02}/{}.csv.gz", bc.year(), bc.month(), bc.format("%Y-%m-%d"));
    assert_eq!(minute_aggs_key(bc.num_days_from_ce()).as_deref(), Some(key.as_str()));
    assert!(key.contains("/-005/01/"));
}
