use chrono::{Datelike, NaiveDate};
use momentum::audit::{first_non_increasing, summarize_rows, weekday_gaps};

fn d(s: &str) -> i32 {
    NaiveDate::parse_from_str(s, "%Y-%m-%d").unwrap().num_days_from_ce()
}

#[test]
fn weekday_gaps_list_missing_weekdays_only() {
    // 2024-07-03 (Wed) .. 2024-07-09 (Tue): 07-04 is a holiday, 07-06/07 a weekend.
    let days = vec![d("2024-07-03"), d("2024-07-05"), d("2024-07-08"), d("2024-07-09")];
    assert_eq!(weekday_gaps(&days), vec![d("2024-07-04")]);
    // A repeated day and a single day.
    assert_eq!(weekday_gaps(&vec![d("2024-07-03"), d("2024-07-03")]), Vec::<i32>::new());
    // Friday to Tuesday with nothing in between: the Monday is missing.
    assert_eq!(weekday_gaps(&vec![d("2024-07-05"), d("2024-07-09")]), vec![d("2024-07-08")]);
}

#[test]
fn row_summary_picks_the_first_extremes() {
    let files = vec![(1, 10), (2, 0), (3, 30), (4, 30), (5, 0)];
    let s = summarize_rows(&files);
    assert_eq!(s.total, 70);
    assert_eq!(s.min, (2, 0));
    assert_eq!(s.max, (3, 30));
    assert_eq!(s.empty, vec![2, 5]);
    let one = summarize_rows(&vec![(7, 5)]);
    assert_eq!((one.total, one.min, one.max, one.empty.len()), (5, (7, 5), (7, 5), 0));
}

#[test]
fn first_non_increasing_flags_the_first_repeat_or_drop() {
    let days = [d("2024-01-02"), d("2024-01-03"), d("2024-01-05")];
    assert_eq!(first_non_increasing(&days), None);
    assert_eq!(first_non_increasing(&[]), None);
    assert_eq!(first_non_increasing(&[d("2024-01-02")]), None);
    // A repeated day, then a drop: the repeat is reported.
    let days = [d("2024-01-02"), d("2024-01-03"), d("2024-01-03"), d("2024-01-01")];
    assert_eq!(first_non_increasing(&days), Some(2));
    let days = [d("2024-01-04"), d("2024-01-02")];
    assert_eq!(first_non_increasing(&days), Some(1));
}
