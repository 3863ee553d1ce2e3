use momentum::layouts::{
    daily_observation_columns, figi_map_columns, financials_columns, forward_outcomes_columns,
    forward_path_short_columns, market_context_daily_columns, sector_aggregates_daily_columns,
    security_classification_daily_columns, short_interest_columns, ColumnKind, ColumnSpec,
};
use momentum::versions::{
    atr_thresholds_v2, forward_horizons_v2, multiday_horizons_v2, pct_thresholds_v2, target_stop_pairs_v6,
};

fn names(cols: &[ColumnSpec]) -> Vec<String> {
    cols.iter().map(|c| c.name.clone()).collect()
}

fn assert_stable(get: fn() -> Vec<ColumnSpec>) {
    let (a, b) = (get(), get());
    assert_eq!(names(&a), names(&b));
    assert!(a.iter().zip(b.iter()).all(|(x, y)| x.kind == y.kind && x.nullable == y.nullable));
}

fn assert_has_field(cols: &[ColumnSpec], name: &str) {
    assert!(cols.iter().any(|c| c.name == name), "layout missing field `{name}`");
}

fn has(cols: &[ColumnSpec], name: &str) -> bool {
    cols.iter().any(|c| c.name == name)
}

#[test]
fn forward_outcomes_column_count_matches_expected() {
    let s = forward_outcomes_columns();
    assert_eq!(s.len(), 657, "forward_outcomes column count drifted from v2 (§3.7) expectation");
}

#[test]
fn forward_outcomes_is_stable_and_carries_every_horizon() {
    assert_stable(forward_outcomes_columns);
    let s = forward_outcomes_columns();
    for h in forward_horizons_v2() {
        assert_has_field(&s, &format!("ret_{h}"));
        assert_has_field(&s, &format!("max_drawdown_{h}"));
        assert_has_field(&s, &format!("close_max_ret_{h}"));
        assert_has_field(&s, &format!("bars_to_max_runup_{h}"));
    }
    for h in forward_horizons_v2() {
        for t in pct_thresholds_v2() {
            assert_has_field(&s, &format!("first_cross_up_{t}pct_{h}"));
            assert_has_field(&s, &format!("first_cross_down_{t}pct_{h}"));
        }
        for t in atr_thresholds_v2() {
            assert_has_field(&s, &format!("first_cross_up_{t}atr_{h}"));
            assert_has_field(&s, &format!("first_cross_down_{t}atr_{h}"));
        }
        for idx in ["spy", "qqq", "iwm"] {
            assert_has_field(&s, &format!("ret_{h}_excess_{idx}"));
        }
    }
    for name in [
        "entry_slippage_proxy_bps",
        "ret_to_1030",
        "ret_to_close",
        "post_entry_power_hour_return",
        "pct_bars_profitable_5d",
        "next_day_gap_return",
        "gap_return_day_5",
        "hit_2atr_before_minus_1atr_5d",
        "terminal_event_type",
    ] {
        assert_has_field(&s, name);
    }
    for pair in target_stop_pairs_v6() {
        assert_has_field(&s, &format!("hit_{pair}"));
        assert_has_field(&s, &format!("first_event_{pair}"));
    }
    for h in multiday_horizons_v2() {
        assert_has_field(&s, &format!("ret_{h}_total"));
        assert_has_field(&s, &format!("dividend_ex_date_within_{h}"));
    }
    for h in forward_horizons_v2() {
        assert_has_field(&s, &format!("bar_gap_minutes_max_{h}"));
    }
    assert_has_field(&s, "cumulative_volume_to_entry");
    assert_has_field(&s, "cumulative_dollar_volume_to_entry");
    assert!(!has(&s, "ret_EOD_total"));
    assert!(!has(&s, "dividend_ex_date_within_30min"));
}

#[test]
fn forward_path_short_is_stable_and_long_format() {
    assert_stable(forward_path_short_columns);
    let s = forward_path_short_columns();
    assert_eq!(s.len(), 19);
    for name in [
        "day",
        "security_id",
        "entry_offset",
        "path_checkpoint",
        "ret",
        "vwap_since_entry",
        "volatility_within_trade",
        "rate_of_change",
        "current_ret_over_atr_14d",
        "halt_gap_crossed",
    ] {
        assert_has_field(&s, name);
    }
    assert!(!has(&s, "censor_type"));
}

#[test]
fn daily_observation_is_stable_and_has_key_columns() {
    assert_stable(daily_observation_columns);
    let s = daily_observation_columns();
    for name in [
        "day",
        "security_id",
        "intraday_1m_first_hour",
        "intraday_10m_rest",
        "intraday_ret_0930_to_1000",
        "eod_day_close",
        "premarket_volume",
        "overnight_gap",
        "atr_14d",
        "realized_vol_21d",
        "beta_spy_60d",
        "is_earnings_day",
        "is_half_day",
        "signal_first_in_5d",
        "signal_first_in_20d",
        "signal_concentration_percentile_today",
        "signal_concentration_hhi_today",
        "premarket_volume_vs_20d_median",
        "pre_market_volume_spike_flag",
        "high_52w",
        "low_52w",
        "days_since_last_5pct_move",
        "days_since_last_20pct_move",
        "consecutive_up_days_close_to_close",
        "gap_filled_today_flag",
    ] {
        assert_has_field(&s, name);
    }
}

#[test]
fn market_context_daily_is_stable_and_shaped() {
    assert_stable(market_context_daily_columns);
    let s = market_context_daily_columns();
    for name in [
        "day",
        "spy_intraday_10m",
        "qqq_intraday_10m",
        "iwm_intraday_10m",
        "vix_close",
        "breadth_pct_universe_green_at_1000",
        "cross_sectional_ret_dispersion_at_1000",
        "cross_sectional_ret_dispersion_eod",
        "cross_sectional_ret_iqr_at_1000",
        "cross_sectional_ret_iqr_eod",
        "universe_median_addv_20d",
        "universe_total_dollar_volume",
    ] {
        assert_has_field(&s, name);
    }
    assert_eq!(s.len(), 45);
    assert!(s.iter().filter(|c| c.kind == ColumnKind::BarList).all(|c| !c.nullable));
}

#[test]
fn sector_aggregates_daily_is_stable() {
    assert_stable(sector_aggregates_daily_columns);
    let s = sector_aggregates_daily_columns();
    assert_eq!(s.len(), 10);
}

#[test]
fn security_classification_daily_is_stable_and_carries_v1_tags() {
    assert_stable(security_classification_daily_columns);
    let s = security_classification_daily_columns();
    for name in [
        "is_etf",
        "is_leveraged_etf",
        "is_adr",
        "is_mega_cap_tech",
        "is_biotech",
        "is_low_float_candidate",
        "is_meme_candidate",
        "is_recent_ipo",
        "market_cap_bucket",
        "liquidity_bucket",
        "price_bucket",
        "volatility_bucket",
        "style_bucket",
        "beta_qqq_60d",
    ] {
        assert_has_field(&s, name);
    }
}

#[test]
fn reference_layouts_have_their_keys() {
    let f = figi_map_columns();
    assert_eq!(names(&f), vec!["security_id", "display_symbol", "valid_from", "valid_to"]);
    assert!(f[2].nullable && f[3].nullable);
    let si = short_interest_columns();
    assert_eq!(si.len(), 6);
    assert_eq!(si[2].name, "settlement_date");
    assert_eq!(si[2].kind, ColumnKind::Date32);
    let fin = financials_columns();
    assert_eq!(fin.len(), 22);
    let acc = fin.iter().find(|c| c.name == "acceptance_datetime").unwrap();
    assert_eq!(acc.kind, ColumnKind::TimestampNsUtc);
    assert!(acc.nullable);
    assert_eq!(fin.last().unwrap().name, "financials_json");
}
