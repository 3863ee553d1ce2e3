use chrono::{NaiveDate, TimeZone};
use momentum::forward::CloseSide::{Above, Below, Flat};
use chrono_tz::America::New_York;
use momentum::forward::{
    bar_gap_max, checkpoint_ends, ends_from_bounds, find_entry, first_daily_cross, first_event_of,
    first_touch, horizon_label, intraday_end, offset_hm, report_cross, report_daily, resolve_daily_pair,
    resolve_pair, short_horizons, tape_bounds, underwater_stats, dividend_ex_within, CloseSide,
    FirstEvent,
};

fn et(y: i32, m: u32, d: u32, h: u32, mi: u32) -> i64 {
    New_York.with_ymd_and_hms(y, m, d, h, mi, 0).unwrap().timestamp_nanos_opt().unwrap()
}

#[test]
fn offsets_parse_into_hour_and_minute() {
    assert_eq!(offset_hm("0935"), (9, 35));
    assert_eq!(offset_hm("1530"), (15, 30));
    assert_eq!(offset_hm("1000"), (10, 0));
}

#[test]
fn crossings_report_one_based_zero_for_never_and_none_when_absent() {
    assert_eq!(report_cross(Some(0), Some(5)), Some(1));
    assert_eq!(report_cross(Some(5), Some(5)), Some(6));
    assert_eq!(report_cross(Some(6), Some(5)), Some(0));
    assert_eq!(report_cross(None, Some(5)), Some(0));
    assert_eq!(report_cross(Some(1), None), None);
    assert_eq!(report_daily(Some(0), 10, true), Some(1));
    assert_eq!(report_daily(Some(11), 10, true), Some(0));
    assert_eq!(report_daily(Some(3), 10, false), None);
}

#[test]
fn short_horizon_labels_are_in_column_order() {
    let labels: Vec<&str> = short_horizons().iter().map(horizon_label).collect();
    assert_eq!(labels, vec!["10min", "30min", "60min", "EOD", "1d", "2d", "3d", "5d"]);
}

#[test]
fn halted_entry_fills_at_the_next_bar() {
    let times = vec![et(2021, 3, 1, 9, 30), et(2021, 3, 1, 9, 31), et(2021, 3, 1, 9, 36)];
    assert_eq!(find_entry(&times, et(2021, 3, 1, 9, 31)), Some((1, false)));
    assert_eq!(find_entry(&times, et(2021, 3, 1, 9, 35)), Some((2, true)));
    assert_eq!(find_entry(&times, et(2021, 3, 1, 9, 40)), None);
}

#[test]
fn tape_bounds_lay_days_end_to_end() {
    // Entry day: 10 bars, entry at index 4 (6 on the tape); D+1: 3 bars;
    // D+2 missing (0 bars); D+3: 2 bars. Days past the buffer are absent.
    let b = tape_bounds(&vec![10, 3, 0, 2], 4);
    assert_eq!(b, vec![Some((0, 5)), Some((6, 8)), None, Some((9, 10)), None, None]);
    // An entry past the day's bars leaves the entry day empty.
    let b = tape_bounds(&vec![3, 2], 3);
    assert_eq!(b, vec![None, Some((0, 1)), None, None, None, None]);
}

#[test]
fn intraday_horizons_cap_at_the_entry_day_close() {
    let times = vec![
        et(2021, 3, 1, 9, 35),
        et(2021, 3, 1, 9, 40),
        et(2021, 3, 1, 9, 50),
        et(2021, 3, 1, 15, 59),
        et(2021, 3, 2, 9, 30),
    ];
    let entry = times[0];
    assert_eq!(intraday_end(&times, Some(3), entry, 10), Some(1));
    assert_eq!(intraday_end(&times, Some(3), entry, 30), Some(2));
    assert_eq!(intraday_end(&times, Some(3), entry, 100_000), Some(3));
    assert_eq!(intraday_end(&times, None, entry, 10), None);
    assert_eq!(intraday_end(&times, Some(3), entry - 60_000_000_000, 0), None);

    let bounds = vec![Some((0, 3)), Some((4, 4)), None, None, None, None];
    let ends = ends_from_bounds(&times, &bounds, entry);
    assert_eq!(ends, vec![Some(1), Some(2), Some(2), Some(3), Some(4), None, None, None]);
}

#[test]
fn time_underwater_is_close_based_with_runs_and_recovery() {
    // entry bar flat, then profitable, two underwater, then recovered.
    let s = underwater_stats(&[Flat, Above, Below, Below, Above], 4);
    assert_eq!(s.bars, 5);
    assert_eq!(s.profitable, 2);
    assert_eq!(s.underwater, 2);
    assert_eq!(s.max_consecutive_profitable, 1);
    assert_eq!(s.max_consecutive_underwater, 2);
    assert_eq!(s.time_to_recover, 2);
    // Back to flat also counts as recovered; never recovering gives 0.
    assert_eq!(underwater_stats(&[Below, Flat], 1).time_to_recover, 1);
    assert_eq!(underwater_stats(&[Above, Below, Below], 2).time_to_recover, 0);
    // The window stops at `end`.
    assert_eq!(underwater_stats(&[Above, Above, Below], 1).underwater, 0);
}

#[test]
fn target_before_stop_labels() {
    // Target touched on bar 2, stop on bar 3: target first.
    let up = [false, false, true, true];
    let dn = [false, false, false, true];
    assert_eq!(resolve_pair(&up, &dn, Some(3), true), (FirstEvent::TargetFirst, Some(true)));
    // A double touch on one bar is a stop first.
    assert_eq!(resolve_pair(&[false, true], &[false, true], Some(1), true), (FirstEvent::StopFirst, Some(false)));
    // Touches past the horizon end do not count.
    assert_eq!(resolve_pair(&up, &dn, Some(1), true), (FirstEvent::Neither, Some(false)));
    assert_eq!(resolve_pair(&up, &dn, None, true), (FirstEvent::NoData, None));
    assert_eq!(resolve_pair(&up, &dn, Some(3), false), (FirstEvent::NoData, None));
    assert_eq!(FirstEvent::TargetFirst.as_str(), "target_first");
    assert_eq!(FirstEvent::NoData.as_str(), "no_data");
    assert_eq!(first_event_of(Some(2), Some(2)), FirstEvent::StopFirst);
    assert_eq!(first_touch(&[false, false, true], 1), None);
}

#[test]
fn daily_pair_needs_21_days_and_the_atr() {
    assert_eq!(resolve_daily_pair(20, true, Some(3), None), (FirstEvent::NoData, None));
    assert_eq!(resolve_daily_pair(30, false, Some(3), None), (FirstEvent::NoData, None));
    assert_eq!(resolve_daily_pair(30, true, Some(3), Some(5)), (FirstEvent::TargetFirst, Some(true)));
    assert_eq!(resolve_daily_pair(30, true, Some(25), Some(5)), (FirstEvent::StopFirst, Some(false)));
    assert_eq!(resolve_daily_pair(30, true, Some(25), Some(22)), (FirstEvent::Neither, Some(false)));
}

#[test]
fn daily_crosses_and_dividend_windows() {
    assert_eq!(first_daily_cross(true, &[false, true]), Some(0));
    assert_eq!(first_daily_cross(false, &[false, true]), Some(2));
    assert_eq!(first_daily_cross(false, &[false, false]), None);
    assert!(dividend_ex_within(&[10, 20], 15));
    assert!(!dividend_ex_within(&[16, 20], 15));
    assert!(!dividend_ex_within(&[], 15));
}

#[test]
fn bar_gaps_ignore_overnight_gaps() {
    let times = vec![
        et(2021, 3, 1, 9, 35),
        et(2021, 3, 1, 9, 36),
        et(2021, 3, 1, 9, 44), // 8-minute intraday gap
        et(2021, 3, 2, 9, 30), // overnight: not counted
        et(2021, 3, 2, 9, 33), // 3-minute gap
    ];
    let bounds = vec![Some((0, 2)), Some((3, 4)), None, None, None, None];
    let ends = vec![Some(1), Some(2), Some(4), None];
    let gaps = bar_gap_max(&times, &ends, &bounds);
    assert_eq!(gaps, vec![Some(1), Some(8), Some(8), None, None, None, None, None, None]);
}

#[test]
fn path_checkpoints_resolve_on_the_tape() {
    let times = vec![
        et(2021, 3, 1, 9, 35),
        et(2021, 3, 1, 9, 36),
        et(2021, 3, 1, 15, 59),
        et(2021, 3, 2, 9, 30),
        et(2021, 3, 2, 9, 59),
        et(2021, 3, 2, 10, 1),
        et(2021, 3, 2, 15, 59),
    ];
    let bounds = vec![Some((0, 2)), Some((3, 6)), None, None, None, None];
    let ends = checkpoint_ends(&times, &bounds, times[0]);
    assert_eq!(ends.len(), 23);
    assert_eq!(ends[0], Some(1)); // 1m
    assert_eq!(ends[13], Some(2)); // EOD
    assert_eq!(ends[14], Some(3)); // 1d_open
    assert_eq!(ends[15], Some(4)); // 1d_30m
    assert_eq!(ends[16], Some(6)); // 1d_close
    assert_eq!(ends[17], None); // 2d_open
    assert_eq!(ends[22], None); // 5d_close
    let _ = NaiveDate::from_ymd_opt(2021, 3, 1);
}

/// (high, low) of each bar of a path entered at 100.
fn touches(bars: &[(f64, f64)], pct: f64) -> (Vec<bool>, Vec<bool>) {
    let entry = 100.0;
    let up = bars.iter().map(|&(h, _)| h >= entry * (1.0 + pct / 100.0)).collect();
    let dn = bars.iter().map(|&(_, l)| l <= entry * (1.0 - pct / 100.0)).collect();
    (up, dn)
}

#[test]
fn crossings_are_1based_with_zero_for_never_and_null_when_absent() {
    // +0.6% @idx1, +1.2% @idx2, -1.1% @idx3; the EOD horizon ends at idx4.
    let bars = [(100.0, 100.0), (100.6, 100.0), (101.2, 100.0), (101.0, 98.9), (99.0, 99.0)];
    let eod = Some(4);
    let (up05, _) = touches(&bars, 0.5);
    let (up1, dn1) = touches(&bars, 1.0);
    let (up2, _) = touches(&bars, 2.0);
    assert_eq!(report_cross(first_touch(&up05, 4), eod), Some(2));
    assert_eq!(report_cross(first_touch(&up1, 4), eod), Some(3));
    assert_eq!(report_cross(first_touch(&up2, 4), eod), Some(0));
    assert_eq!(report_cross(first_touch(&dn1, 4), eod), Some(4));
    // The 1d horizon has no forward data: null, not 0.
    assert_eq!(report_cross(first_touch(&up1, 4), None), None);
}

#[test]
fn stop_first_and_neither_labels() {
    // Drops to -1.1% (@idx1 low 98.9) before ever reaching +1%.
    let down_first = [(100.0, 100.0), (100.2, 98.9), (100.4, 99.5)];
    let (up, dn) = touches(&down_first, 1.0);
    assert_eq!(resolve_pair(&up, &dn, Some(2), true).0.as_str(), "stop_first");
    // Flat path: neither +1% nor -1%.
    let flat = [(100.1, 99.9), (100.2, 99.8)];
    let (up, dn) = touches(&flat, 1.0);
    assert_eq!(resolve_pair(&up, &dn, Some(1), true).0.as_str(), "neither");
}
