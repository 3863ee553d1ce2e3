use chrono::{Datelike, NaiveDate, TimeZone, Utc};
use chrono_tz::America::New_York;
use momentum::dates::{date32, et, is_weekend, weekday_from_monday};
use momentum::enums::{Phase0ExitReason, PathEndReason, TerminalValueSource};
use momentum::regimes::{era_assignments, era_of, exploration_window, in_exploration, spy_trend_base};
use momentum::rolling::{CloseMove, MoveCounters};
use momentum::slices::{bucket_runs, slice_bounds};
use momentum::stamps::{
    daily_observation_stamps, forward_outcomes_stamps, forward_path_short_stamps,
    market_context_daily_stamps, regime_definitions_stamps, security_classification_daily_stamps,
};
use momentum::versions::{
    atr_thresholds_v2, entry_offsets_v1, first_event_values_v1, forward_horizons_v2, multiday_horizons_v2,
    path_checkpoints_v1, pct_thresholds_v2, regime_thresholds_key, target_stop_pairs_v6, terminal_event_types_v1,
};

fn d(y: i32, m: u32, day: u32) -> i32 {
    NaiveDate::from_ymd_opt(y, m, day).unwrap().num_days_from_ce()
}

fn et_ns(day: NaiveDate, h: u32, m: u32) -> i64 {
    New_York
        .with_ymd_and_hms(day.year(), day.month(), day.day(), h, m, 0)
        .unwrap()
        .with_timezone(&Utc)
        .timestamp_nanos_opt()
        .unwrap()
}

#[test]
fn eras_follow_the_frozen_calendar() {
    assert_eq!(era_of(d(2018, 5, 1)), (1, "zirp_bull"));
    assert_eq!(era_of(d(2021, 1, 27)), (2, "covid_meme"));
    assert_eq!(era_of(d(2023, 3, 1)), (3, "rate_shock_ai"));
    assert_eq!(era_of(d(2026, 6, 11)), (4, "recent"));
    // Boundaries are inclusive.
    assert_eq!(era_of(d(2019, 12, 31)).0, 1);
    assert_eq!(era_of(d(2020, 1, 1)).0, 2);
    assert_eq!(era_of(d(2024, 12, 31)).0, 3);
}

#[test]
fn era_rows_and_exploration_window() {
    let rows = era_assignments(&vec![d(2018, 5, 1), d(2025, 1, 2)]);
    assert_eq!(rows.len(), 2);
    assert_eq!(rows[0].taxonomy, "era");
    assert_eq!(rows[1].regime_name, "recent");
    let w = exploration_window().unwrap();
    assert_eq!(w, (d(2016, 6, 8), d(2020, 12, 31)));
    assert!(in_exploration(w, d(2016, 6, 8)));
    assert!(in_exploration(w, d(2020, 12, 31)));
    assert!(!in_exploration(w, d(2021, 1, 1)));
}

#[test]
fn spy_trend_needs_63_days_of_history() {
    let with_history = (0..100usize).filter(|i| spy_trend_base(*i).is_some()).count();
    assert_eq!(with_history, 100 - 63, "first 63 days have no trailing return");
    assert_eq!(spy_trend_base(63), Some(0));
}

#[test]
fn et_conversion_is_dst_correct() {
    let winter = NaiveDate::from_ymd_opt(2021, 1, 15).unwrap();
    assert_eq!(
        et(winter.num_days_from_ce(), 9, 30),
        Utc.with_ymd_and_hms(2021, 1, 15, 14, 30, 0).unwrap().timestamp_nanos_opt()
    );
    let summer = NaiveDate::from_ymd_opt(2021, 7, 15).unwrap();
    assert_eq!(
        et(summer.num_days_from_ce(), 9, 30),
        Utc.with_ymd_and_hms(2021, 7, 15, 13, 30, 0).unwrap().timestamp_nanos_opt()
    );
    // 02:30 on the spring-forward day does not exist.
    assert_eq!(et(d(2021, 3, 14), 2, 30), None);
}

#[test]
fn weekdays_and_date32() {
    assert_eq!(weekday_from_monday(d(2024, 1, 1)), 0); // a Monday
    assert!(is_weekend(d(2024, 1, 6)));
    assert!(!is_weekend(d(2024, 1, 5)));
    assert_eq!(date32(d(1970, 1, 2)), 1);
}

#[test]
fn slice_is_half_open() {
    let day = NaiveDate::from_ymd_opt(2021, 1, 15).unwrap();
    let times: Vec<i64> = (0..5).map(|i| et_ns(day, 9, 30 + i)).collect();
    let (lo, hi) = slice_bounds(&times, et_ns(day, 9, 31), et_ns(day, 9, 33));
    assert_eq!(hi - lo, 2);
    assert_eq!(times[lo], et_ns(day, 9, 31));
    assert_eq!(times[lo + 1], et_ns(day, 9, 32));
}

#[test]
fn aggregate_10m_ohlcv_semantics_with_gaps() {
    let day = NaiveDate::from_ymd_opt(2021, 1, 15).unwrap();
    // Two bars in the first 10m bucket, none in the second, one in the third.
    let times = vec![et_ns(day, 10, 31), et_ns(day, 10, 38), et_ns(day, 10, 55)];
    let open = [10.0, 11.0, 14.0];
    let high = [12.0, 15.0, 14.5];
    let low = [9.0, 10.5, 13.0];
    let close = [11.0, 14.0, 13.5];
    let volume = [100.0, 200.0, 50.0];
    let (lo, hi) = slice_bounds(&times, et_ns(day, 10, 30), et_ns(day, 16, 0));
    let runs = bucket_runs(&times[lo..hi], et_ns(day, 10, 30), 10);
    assert_eq!(runs.len(), 2, "empty bucket produces no bar");

    let fold = |r: &momentum::slices::BucketRun| {
        let idx = (lo + r.first)..=(lo + r.last);
        (
            open[lo + r.first],
            idx.clone().map(|i| high[i]).fold(f64::NEG_INFINITY, f64::max),
            idx.clone().map(|i| low[i]).fold(f64::INFINITY, f64::min),
            close[lo + r.last],
            idx.map(|i| volume[i]).sum::<f64>(),
        )
    };
    let b0 = fold(&runs[0]);
    assert_eq!(runs[0].bucket_start, et_ns(day, 10, 30));
    assert_eq!(b0, (10.0, 15.0, 9.0, 14.0, 300.0));
    let b1 = fold(&runs[1]);
    assert_eq!(runs[1].bucket_start, et_ns(day, 10, 50));
    assert_eq!(b1.4, 50.0);
}

fn push_closes(c: &mut MoveCounters, closes: &[f64]) {
    let mut prev: Option<f64> = None;
    for &x in closes {
        let mv = prev.map(|p| {
            let ret: f64 = x / p - 1.0;
            CloseMove { up: ret > 0.0, reached: [ret.abs() >= 0.05, ret.abs() >= 0.10, ret.abs() >= 0.20] }
        });
        c.push(mv, false);
        prev = Some(x);
    }
}

#[test]
fn counters_track_moves_and_streaks() {
    let mut c = MoveCounters::new(d(2021, 1, 1));
    // closes: 100, 101 (+1%), 112 (+10.9%), 113, 114, 113
    push_closes(&mut c, &[100.0, 101.0, 112.0, 113.0, 114.0, 113.0]);
    assert_eq!(c.days_since_move(0), Some(4));
    assert_eq!(c.days_since_move(1), Some(4));
    assert_eq!(c.days_since_move(2), None, "no 20% move on record");
    assert_eq!(c.consecutive_up_days(), 0);
    assert_eq!(c.days_since_first_bar(), 6);
    assert_eq!(c.first_bar_day(), d(2021, 1, 1));
}

#[test]
fn signal_fired_in_last_handles_short_history() {
    let mut c = MoveCounters::new(d(2021, 1, 1));
    c.push(None, true);
    assert_eq!(c.signal_fired_in_last(1), Some(true));
    assert_eq!(c.signal_fired_in_last(5), None, "only 1 day on record");
}

#[test]
fn window_caps_at_252_days() {
    let mut c = MoveCounters::new(d(2021, 1, 1));
    c.push(None, true);
    for _ in 1..300 {
        c.push(Some(CloseMove { up: false, reached: [false, false, false] }), false);
    }
    assert_eq!(c.days_since_first_bar(), 300);
    assert_eq!(c.signal_fired_in_last(252), Some(false), "the fired day fell out of the window");
    assert_eq!(c.signal_fired_in_last(253), None);
    c.push(None, true);
    assert_eq!(c.signal_fired_in_last(1), Some(true));
    assert_eq!(c.signal_fired_in_last(2), Some(true));
}

#[test]
fn consecutive_up_counts_streak() {
    let mut c = MoveCounters::new(d(2021, 1, 1));
    push_closes(&mut c, &[100.0, 101.0, 102.0, 103.0]);
    assert_eq!(c.consecutive_up_days(), 3);
}

#[test]
fn every_table_stamp_list_carries_its_version_key() {
    assert!(daily_observation_stamps().iter().any(|(k, v)| k == "daily_observation_version" && v == "v2"));
    assert!(daily_observation_stamps().iter().any(|(k, _)| k == "signal_definition"));
    assert!(forward_outcomes_stamps().iter().any(|(k, v)| k == "forward_outcomes_version" && v == "v2"));
    assert!(forward_path_short_stamps().iter().any(|(k, v)| k == "forward_path_checkpoints_version" && v == "v2"));
    assert!(market_context_daily_stamps().iter().any(|(k, v)| k == "market_context_daily_version" && v == "v2"));
    assert_eq!(security_classification_daily_stamps(), vec![("security_classification_version".to_string(), "v1".to_string())]);
    assert_eq!(regime_definitions_stamps(), vec![("regime_taxonomy_version".to_string(), "v1".to_string())]);
}

#[test]
fn grids_and_keys() {
    assert_eq!(entry_offsets_v1().len(), 17);
    assert_eq!(entry_offsets_v1()[0], "0935");
    let h = forward_horizons_v2();
    let m = multiday_horizons_v2();
    assert_eq!(&h[h.len() - m.len()..], &m[..]);
    assert_eq!(regime_thresholds_key("vix_level"), "regime_thresholds_vix_level");
}

#[test]
fn enum_labels() {
    assert_eq!(PathEndReason::EndOfData.as_str(), "end_of_data");
    assert_eq!(TerminalValueSource::LastBarPreDelist.as_str(), "last_bar_pre_delist");
    assert_eq!(Phase0ExitReason::BreakevenRule.as_str(), "breakeven_rule");
}

#[test]
fn ranks_follow_the_given_order() {
    // values: [3.0, NaN, 7.0, 5.0] -> order of the finite ones, largest first: 2, 3, 0
    let r = momentum::ranks::ranks_from_order(4, &vec![2, 3, 0]);
    assert_eq!(r, vec![Some(3), None, Some(1), Some(2)]);
    assert_eq!(momentum::ranks::ranks_from_order(2, &vec![]), vec![None, None]);
}

#[test]
fn session_windows_split_the_day() {
    let day = NaiveDate::from_ymd_opt(2024, 3, 5).unwrap();
    let dn = day.num_days_from_ce();
    let (pre, open) = momentum::slices::session_starts(dn).unwrap();
    assert_eq!(pre, et_ns(day, 4, 0));
    assert_eq!(open, et_ns(day, 9, 30));
    let close = et_ns(day, 16, 0);
    let times = vec![et_ns(day, 3, 59), et_ns(day, 4, 0), et_ns(day, 9, 29), et_ns(day, 9, 30), et_ns(day, 15, 30), et_ns(day, 16, 0), et_ns(day, 16, 1)];
    let w = momentum::slices::session_windows(&times, pre, open, close);
    assert_eq!(w.premarket, (1, 3));
    assert_eq!(w.rth, (3, 6));
    assert_eq!(w.last_30m, (5, 6));
    assert_eq!(momentum::slices::rth_indices(&times, open, close), vec![3, 4, 5]);
}

#[test]
fn entry_time_reads_the_offset_as_eastern_time() {
    let day = NaiveDate::from_ymd_opt(2024, 7, 1).unwrap();
    assert_eq!(momentum::forward::entry_time(day.num_days_from_ce(), "0935"), Some(et_ns(day, 9, 35)));
    let winter = NaiveDate::from_ymd_opt(2024, 1, 2).unwrap();
    assert_eq!(momentum::forward::entry_time(winter.num_days_from_ce(), "1000"), Some(et_ns(winter, 10, 0)));
}

#[test]
fn parameter_grids_match_rfc_v6() {
    assert_eq!(entry_offsets_v1().len(), 17);
    assert_eq!(forward_horizons_v2().len(), 13);
    assert_eq!(path_checkpoints_v1().len(), 23);
    assert_eq!(pct_thresholds_v2().len(), 7);
    assert_eq!(atr_thresholds_v2().len(), 6);
    assert_eq!(multiday_horizons_v2().len(), 9);
    assert_eq!(target_stop_pairs_v6().len(), 9);
    let h = forward_horizons_v2();
    let m = multiday_horizons_v2();
    assert_eq!(&h[h.len() - m.len()..], &m[..]);
}

#[test]
fn enum_value_sets_match_strategy_doc() {
    let t = terminal_event_types_v1();
    assert_eq!(t.len(), 6);
    assert_eq!(t[0], "none");
    assert!(t.contains(&"delisted_merger_acquisition"));
    assert!(t.contains(&"delisted_bankruptcy_liquidation"));
    assert!(t.contains(&"extended_halt_no_bars"));
    assert_eq!(first_event_values_v1(), vec!["target_first", "stop_first", "neither", "no_data"]);
    assert_eq!(regime_thresholds_key("vix_level"), "regime_thresholds_vix_level");
}
