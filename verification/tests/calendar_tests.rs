use chrono::{Datelike, NaiveDate, TimeZone, Timelike, Utc};
use momentum::calendar::{Calendar, CalendarError};

fn d(s: &str) -> i32 {
    NaiveDate::parse_from_str(s, "%Y-%m-%d").unwrap().num_days_from_ce()
}

fn names(list: &[&str]) -> Vec<String> {
    list.iter().map(|s| s.to_string()).collect()
}

/// The `(display_symbol, t)` rows of a synthetic day file: two AAPL rows
/// and three SPY rows, the last SPY row at the given UTC close.
fn day_rows(day: &str, spy_close_utc_h: u32, spy_close_utc_m: u32) -> (Vec<String>, Vec<i64>) {
    let day = NaiveDate::parse_from_str(day, "%Y-%m-%d").unwrap();
    let ts = |h, m| {
        Utc.with_ymd_and_hms(day.year(), day.month(), day.day(), h, m, 0)
            .unwrap()
            .timestamp_nanos_opt()
            .unwrap()
    };
    let syms = vec!["AAPL", "AAPL", "SPY", "SPY", "SPY"].into_iter().map(String::from).collect();
    let t = vec![ts(14, 30), ts(14, 35), ts(14, 30), ts(15, 0), ts(spy_close_utc_h, spy_close_utc_m)];
    (syms, t)
}

fn hour_minute(ns: i64) -> (u32, u32) {
    let t = Utc.timestamp_nanos(ns);
    (t.hour(), t.minute())
}

#[test]
fn empty_dir_errors() {
    let res = Calendar::from_file_names("data/bars_1m_raw", &Vec::new());
    assert!(matches!(res, Err(CalendarError::EmptyBarsDir(_))));
    assert_eq!(res.err(), Some(CalendarError::EmptyBarsDir("data/bars_1m_raw".into())));
}

#[test]
fn trading_days_are_sorted_and_filtered() {
    // Out-of-order names plus one non-conforming file name.
    let cal = Calendar::from_file_names("bars", &names(&[
        "2024-01-04.parquet",
        "2024-01-02.parquet",
        "2024-01-03.parquet",
        "README.txt",
    ]))
    .unwrap();
    assert_eq!(cal.trading_days(), &[d("2024-01-02"), d("2024-01-03"), d("2024-01-04")]);
    assert!(cal.has_day(d("2024-01-03")));
    assert!(!cal.has_day(d("2024-01-01")));
}

#[test]
fn next_and_prev_trading_day() {
    let cal = Calendar::from_file_names("bars", &names(&[
        "2024-01-02.parquet",
        "2024-01-03.parquet",
        "2024-01-05.parquet",
    ]))
    .unwrap();

    assert_eq!(cal.next_trading_day(d("2024-01-04")), Some(d("2024-01-05")));
    assert_eq!(cal.next_trading_day(d("2024-01-03")), Some(d("2024-01-03")));
    assert_eq!(cal.next_trading_day(d("2024-01-06")), None);

    assert_eq!(cal.prev_trading_day(d("2024-01-04")), Some(d("2024-01-03")));
    assert_eq!(cal.prev_trading_day(d("2024-01-03")), Some(d("2024-01-03")));
    assert_eq!(cal.prev_trading_day(d("2024-01-01")), None);
}

#[test]
fn session_close_reads_spy_max_t_full_day() {
    let mut cal = Calendar::from_file_names("bars", &names(&["2024-01-02.parquet"])).unwrap();
    let (syms, t) = day_rows("2024-01-02", 21, 0);
    let close = cal.session_close_from_rows(d("2024-01-02"), &syms, &t).unwrap();
    assert_eq!(hour_minute(close), (21, 0));
}

#[test]
fn session_close_picks_up_half_day() {
    let mut cal = Calendar::from_file_names("bars", &names(&["2024-11-29.parquet", "2024-11-25.parquet"])).unwrap();
    let (syms, t) = day_rows("2024-11-29", 18, 0);
    assert_eq!(hour_minute(cal.session_close_from_rows(d("2024-11-29"), &syms, &t).unwrap()).0, 18);
    let (syms, t) = day_rows("2024-11-25", 21, 0);
    assert_eq!(hour_minute(cal.session_close_from_rows(d("2024-11-25"), &syms, &t).unwrap()).0, 21);
}

#[test]
fn session_close_caches() {
    let mut cal = Calendar::from_file_names("bars", &names(&["2024-01-02.parquet"])).unwrap();
    let (syms, t) = day_rows("2024-01-02", 21, 0);
    let _first = cal.session_close_from_rows(d("2024-01-02"), &syms, &t).unwrap();
    // The day's rows are gone; the memoised close still answers.
    let second = cal.session_close_from_rows(d("2024-01-02"), &Vec::new(), &Vec::new()).unwrap();
    assert_eq!(hour_minute(second).0, 21);
    assert_eq!(cal.cached_close(d("2024-01-02")), Some(second));
}

#[test]
fn session_close_ignores_after_hours_bars() {
    let day = NaiveDate::from_ymd_opt(2024, 1, 2).unwrap();
    let ts = |h, m| {
        Utc.with_ymd_and_hms(day.year(), day.month(), day.day(), h, m, 0)
            .unwrap()
            .timestamp_nanos_opt()
            .unwrap()
    };
    let syms: Vec<String> = vec!["SPY"; 4].into_iter().map(String::from).collect();
    let t = vec![ts(14, 30), ts(15, 0), ts(21, 0), ts(23, 30)];
    let mut cal = Calendar::from_file_names("bars", &names(&["2024-01-02.parquet"])).unwrap();
    let close = cal.session_close_from_rows(day.num_days_from_ce(), &syms, &t).unwrap();
    assert_eq!(hour_minute(close), (21, 0));
}

#[test]
fn day_without_spy_rows_is_an_error() {
    let mut cal = Calendar::from_file_names("bars", &names(&["2024-01-02.parquet"])).unwrap();
    let syms: Vec<String> = vec!["AAPL".to_string()];
    let t = vec![Utc.with_ymd_and_hms(2024, 1, 2, 15, 0, 0).unwrap().timestamp_nanos_opt().unwrap()];
    let res = cal.session_close_from_rows(d("2024-01-02"), &syms, &t);
    assert_eq!(res, Err(CalendarError::NoSpyRows { date: d("2024-01-02") }));
    assert_eq!(cal.cached_close(d("2024-01-02")), None);
}

#[test]
fn duplicate_file_names_give_one_day() {
    let cal = Calendar::from_file_names("bars", &names(&["2024-01-02.parquet", "2024-01-02.parquet", "x.parquet"])).unwrap();
    assert_eq!(cal.trading_days(), &[d("2024-01-02")]);
}

#[test]
fn missing_day_errors() {
    let mut cal = Calendar::from_file_names("bars", &names(&["2024-01-02.parquet"])).unwrap();
    let res = cal.session_close_of_day_file(d("2024-01-03"), None);
    assert!(matches!(res, Err(CalendarError::MissingDay { .. })));
    assert_eq!(res, Err(CalendarError::MissingDay { date: d("2024-01-03") }));
    // A day whose file exists reads its close.
    let (syms, ts) = day_rows("2024-01-02", 21, 0);
    let close = cal.session_close_of_day_file(d("2024-01-02"), Some((&syms, &ts))).unwrap();
    assert_eq!(hour_minute(close), (21, 0));
    // Once memoised, the file is not consulted again.
    assert_eq!(cal.session_close_of_day_file(d("2024-01-02"), None), Ok(close));
}
