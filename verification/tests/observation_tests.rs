use chrono::{Datelike, NaiveDate, TimeZone};
use chrono_tz::America::New_York;
use momentum::observation::{b0_counts, b0_windows, et_hh_mm, is_half_day};
use momentum::slices::{bucket_runs, slice_bounds};

fn et(day: NaiveDate, h: u32, m: u32) -> i64 {
    New_York.with_ymd_and_hms(day.year(), day.month(), day.day(), h, m, 0).unwrap().timestamp_nanos_opt().unwrap()
}

#[test]
fn b0_batch_matches_schema_and_counts() {
    let day = NaiveDate::from_ymd_opt(2021, 3, 15).unwrap();
    let close = et(day, 15, 59);
    let w = b0_windows(day.num_days_from_ce(), close).unwrap();
    assert_eq!(w.rth_open, et(day, 9, 30));
    assert_eq!(w.rth_end, et(day, 16, 0));
    // Premarket bar, two first-30m bars, one 10:15 bar, one 14:00 bar.
    let a: Vec<i64> = [(8, 0), (9, 30), (9, 45), (10, 15), (14, 0)].iter().map(|&(h, m)| et(day, h, m)).collect();
    // First bar late at 9:42 (gappy microcap).
    let b: Vec<i64> = [(9, 42), (10, 45)].iter().map(|&(h, m)| et(day, h, m)).collect();
    let ca = b0_counts(&a, &w);
    let cb = b0_counts(&b, &w);
    assert_eq!((ca.bar_count_premarket, cb.bar_count_premarket), (1, 0));
    assert_eq!((ca.bar_count_first_30m, cb.bar_count_first_30m), (2, 1));
    assert_eq!(ca.bar_count_rth, 4, "premarket bar excluded");
    assert_eq!((ca.minutes_after_open_first_bar, cb.minutes_after_open_first_bar), (Some(0), Some(12)));
    assert_eq!(et_hh_mm(a[ca.rth.0]), "09:30");
    assert_eq!(et_hh_mm(b[cb.rth.0]), "09:42");
    // First-hour list: 9:30, 9:45, 10:15 for the first security; only 9:42 for the second.
    assert_eq!((ca.bar_count_first_hour, cb.bar_count_first_hour), (3, 1));
    // 10-minute rest of the session: one bucket each (14:00; 10:45).
    let rest = |t: &[i64]| {
        let (lo, hi) = slice_bounds(t, w.first_hour_end, w.rth_end);
        bucket_runs(&t[lo..hi], w.first_hour_end, 10).len()
    };
    assert_eq!((rest(&a), rest(&b)), (1, 1));
    assert!(!is_half_day(close), "full-day close is not a half day");
}

#[test]
fn half_day_close_sets_flag() {
    let day = NaiveDate::from_ymd_opt(2021, 11, 26).unwrap();
    assert!(is_half_day(et(day, 12, 59)));
    assert!(!is_half_day(et(day, 15, 59)));
}

#[test]
fn no_regular_session_bar_gives_no_first_bar() {
    let day = NaiveDate::from_ymd_opt(2021, 3, 15).unwrap();
    let w = b0_windows(day.num_days_from_ce(), et(day, 15, 59)).unwrap();
    let c = b0_counts(&[et(day, 7, 0), et(day, 16, 30)], &w);
    assert_eq!((c.bar_count_rth, c.bar_count_premarket, c.minutes_after_open_first_bar), (0, 1, None));
}
