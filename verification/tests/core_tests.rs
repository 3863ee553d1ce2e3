use momentum::classify::{rules_version, BehavioralTags, ClassificationInputs, MarketCapBucket, classify};
use momentum::ids::{DisplaySymbol, SecurityId};
use momentum::rest::{needs_enrichment, TickerListItem};
use momentum::sic::sector_industry;
use momentum::thresholds::{
    LARGE_CAP_TECH_ADDV_RANK_MAX, LOW_FLOAT_PROXY_ADDV_RANK_MIN, LOW_FLOAT_PROXY_ATR_RATIO_MIN_MILLIONTHS,
    LOW_FLOAT_PROXY_PRIOR_CLOSE_MIN_MILLIONTHS, LOW_FLOAT_SHARES_MAX_MILLIONTHS, MEGA_CAP_TECH_ADDV_RANK_MAX,
    MEGA_CAP_TECH_BETA_QQQ_MIN_MILLIONTHS, MEME_ADDV_PERCENTILE_JUMP_MIN_MILLIONTHS, MEME_DOLLAR_VOLUME_RANK_MAX,
    MEME_VOL_PERCENTILE_MIN_MILLIONTHS, RECENT_IPO_DAYS_MAX,
};
use momentum::versions::{
    ATR_THRESHOLD_VERSION, DAILY_OBSERVATION_VERSION, ENTRY_OFFSET_GRID_VERSION,
    FORWARD_HORIZONS_VERSION, FORWARD_OUTCOMES_VERSION, FORWARD_PATH_CHECKPOINTS_VERSION,
    MARKET_CONTEXT_DAILY_VERSION, PCT_THRESHOLD_VERSION, REGIME_TAXONOMY_VERSION,
    SECURITY_CLASSIFICATION_VERSION, SIGNAL_DEFINITION_VERSION,
};

fn raw_item(ticker: &str, active: bool, figi: Option<&str>, delisted: Option<&str>) -> TickerListItem {
    TickerListItem {
        ticker: ticker.into(),
        name: Some(format!("{ticker} Inc.")),
        market: Some("stocks".into()),
        locale: Some("us".into()),
        primary_exchange: Some("XNYS".into()),
        ticker_type: Some("CS".into()),
        active,
        currency_name: Some("usd".into()),
        cik: None,
        composite_figi: figi.map(String::from),
        share_class_figi: figi.map(String::from),
        last_updated_utc: Some("2025-01-02T03:04:05Z".into()),
        delisted_utc: delisted.map(String::from),
    }
}

#[test]
fn needs_enrichment_flags_missing_figi_and_missing_delist() {
    // Active + has FIGI: already complete.
    assert!(!needs_enrichment(&raw_item("AAPL", true, Some("BBG0AAPL"), None)));
    // Active but no FIGI: needs enrichment for the identity key.
    assert!(needs_enrichment(&raw_item("NEW", true, None, None)));
    // Inactive with delisted_utc set: already complete.
    assert!(!needs_enrichment(&raw_item("DEAD", false, Some("BBG0DEAD"), Some("2022-06-15T00:00:00Z"))));
    // Inactive but no delisted_utc: needs enrichment for the eligibility filter.
    assert!(needs_enrichment(&raw_item("DEAD", false, Some("BBG0DEAD"), None)));
    // Inactive and missing FIGI: either condition suffices.
    assert!(needs_enrichment(&raw_item("DEAD", false, None, None)));
}

fn frac(millionths: i64) -> f64 {
    millionths as f64 / 1e6
}

#[test]
fn snapshot_v1_thresholds() {
    assert_eq!(MEGA_CAP_TECH_ADDV_RANK_MAX, 50);
    assert_eq!(frac(MEGA_CAP_TECH_BETA_QQQ_MIN_MILLIONTHS), 0.9);
    assert_eq!(LARGE_CAP_TECH_ADDV_RANK_MAX, 500);
    assert_eq!(frac(LOW_FLOAT_SHARES_MAX_MILLIONTHS), 50_000_000.0);
    assert_eq!(frac(LOW_FLOAT_PROXY_ATR_RATIO_MIN_MILLIONTHS), 0.05);
    assert_eq!(frac(LOW_FLOAT_PROXY_PRIOR_CLOSE_MIN_MILLIONTHS), 1.0);
    assert_eq!(LOW_FLOAT_PROXY_ADDV_RANK_MIN, 5_000);
    assert_eq!(frac(MEME_VOL_PERCENTILE_MIN_MILLIONTHS), 95.0);
    assert_eq!(MEME_DOLLAR_VOLUME_RANK_MAX, 50);
    assert_eq!(frac(MEME_ADDV_PERCENTILE_JUMP_MIN_MILLIONTHS), 90.0);
    assert_eq!(RECENT_IPO_DAYS_MAX, 60);
}

#[test]
fn rules_version_matches_core_constant() {
    assert_eq!(rules_version(), "v1");
    assert_eq!(rules_version(), SECURITY_CLASSIFICATION_VERSION);
}

#[test]
fn ids_are_not_interchangeable() {
    fn takes_security(_: &SecurityId) {}
    fn takes_display(_: &DisplaySymbol) {}

    let sid = SecurityId::new("BBG000B9XRY4");
    let disp = DisplaySymbol::new("AAPL");
    takes_security(&sid);
    takes_display(&disp);
}

#[test]
fn display_roundtrip() {
    assert_eq!(SecurityId::new("X").to_string(), "X");
    assert_eq!(DisplaySymbol::new("AAPL").to_string(), "AAPL");
}

#[test]
fn version_constants_stamp_v1_or_v2() {
    assert_eq!(ENTRY_OFFSET_GRID_VERSION, "v1");
    assert_eq!(FORWARD_HORIZONS_VERSION, "v2");
    assert_eq!(FORWARD_PATH_CHECKPOINTS_VERSION, "v2");
    assert_eq!(PCT_THRESHOLD_VERSION, "v2");
    assert_eq!(ATR_THRESHOLD_VERSION, "v2");
    assert_eq!(REGIME_TAXONOMY_VERSION, "v1");
    assert_eq!(SECURITY_CLASSIFICATION_VERSION, "v1");
    assert_eq!(DAILY_OBSERVATION_VERSION, "v2");
    assert_eq!(FORWARD_OUTCOMES_VERSION, "v2");
    assert_eq!(MARKET_CONTEXT_DAILY_VERSION, "v2");
    assert_eq!(SIGNAL_DEFINITION_VERSION, "v1");
}

#[test]
fn labels_match_classify_rule_constants() {
    assert_eq!(sector_industry("3674"), (Some("Technology"), Some("Semiconductors")));
    assert_eq!(sector_industry("2836"), (Some("Healthcare"), Some("Biotechnology")));
    assert_eq!(sector_industry("8731"), (Some("Healthcare"), Some("Biotechnology")));
    assert_eq!(sector_industry("2834"), (Some("Healthcare"), Some("Pharmaceuticals")));
    assert_eq!(sector_industry("6022"), (Some("Financials"), Some("Regional Banks")));
    assert_eq!(sector_industry("1311").0, Some("Energy"));
    assert_eq!(sector_industry("7372"), (Some("Technology"), Some("Software & IT Services")));
}

#[test]
fn range_boundaries_and_unknowns() {
    assert_eq!(sector_industry("6798"), (Some("Real Estate"), Some("REITs")));
    assert_eq!(sector_industry("6770"), (Some("Financials"), Some("Investment Offices")));
    assert_eq!(sector_industry("4911").0, Some("Utilities"));
    assert_eq!(sector_industry("3711").0, Some("Consumer Discretionary"));
    assert_eq!(sector_industry("3841").0, Some("Healthcare"));
    assert_eq!(sector_industry(""), (None, None));
    assert_eq!(sector_industry("9999"), (None, None));
    assert_eq!(sector_industry("garbage"), (None, None));
}

fn nvda_mega_cap_2024() -> ClassificationInputs<'static> {
    ClassificationInputs {
        ticker_type: Some("CS"),
        is_adr: Some(false),
        country_of_origin: Some("US"),
        market_cap_bucket: Some(MarketCapBucket::Mega),
        sector: Some("Technology"),
        industry: Some("Semiconductors"),
        sub_industry: Some("Semiconductors"),
        addv_20d_rank_today: Some(1),
        // realized-vol percentile 80 (< 95), jump 50 (< 90)
        realized_vol_percentile_at_meme_min: Some(false),
        realized_vol_percentile_jump_at_meme_min: Some(false),
        intraday_dollar_volume_0930_to_1000_rank_today: Some(2),
        // ATR ratio 0.03 (<= 0.05), prior close 900 (> 1)
        atr_ratio_above_low_float_min: Some(false),
        prior_close_above_low_float_min: Some(true),
        // beta 1.5 (> 0.9)
        beta_qqq_above_mega_min: Some(true),
        // float 2.5B (>= 50M)
        float_below_low_float_max: Some(false),
        days_since_ipo_or_first_bar: Some(10_000),
    }
}

fn biotech_gapper_low_float_2021() -> ClassificationInputs<'static> {
    ClassificationInputs {
        ticker_type: Some("CS"),
        is_adr: Some(false),
        country_of_origin: Some("US"),
        market_cap_bucket: Some(MarketCapBucket::Micro),
        sector: Some("Healthcare"),
        industry: Some("Biotechnology"),
        sub_industry: Some("Biotechnology"),
        addv_20d_rank_today: Some(6_000),
        // vol percentile 97, jump 92
        realized_vol_percentile_at_meme_min: Some(true),
        realized_vol_percentile_jump_at_meme_min: Some(true),
        intraday_dollar_volume_0930_to_1000_rank_today: Some(120),
        // ATR ratio 0.08, prior close 4.5
        atr_ratio_above_low_float_min: Some(true),
        prior_close_above_low_float_min: Some(true),
        // beta 0.3
        beta_qqq_above_mega_min: Some(false),
        // float data missing: the fallback proxy arm
        float_below_low_float_max: None,
        days_since_ipo_or_first_bar: Some(200),
    }
}

fn baba_china_adr_2020() -> ClassificationInputs<'static> {
    ClassificationInputs {
        ticker_type: Some("ADRC"),
        is_adr: Some(true),
        country_of_origin: Some("CN"),
        market_cap_bucket: Some(MarketCapBucket::Mega),
        sector: Some("Consumer Discretionary"),
        industry: Some("Internet Retail"),
        sub_industry: None,
        addv_20d_rank_today: Some(40),
        // vol percentile 60, jump 20
        realized_vol_percentile_at_meme_min: Some(false),
        realized_vol_percentile_jump_at_meme_min: Some(false),
        intraday_dollar_volume_0930_to_1000_rank_today: Some(35),
        // ATR ratio 0.025, prior close 220
        atr_ratio_above_low_float_min: Some(false),
        prior_close_above_low_float_min: Some(true),
        // beta 0.8 (<= 0.9)
        beta_qqq_above_mega_min: Some(false),
        // float 2B
        float_below_low_float_max: Some(false),
        days_since_ipo_or_first_bar: Some(2_000),
    }
}

fn first_solar_ipo_2007() -> ClassificationInputs<'static> {
    ClassificationInputs {
        ticker_type: Some("CS"),
        is_adr: Some(false),
        country_of_origin: Some("US"),
        market_cap_bucket: Some(MarketCapBucket::Small),
        sector: Some("Energy"),
        industry: Some("Renewable Energy Equipment"),
        sub_industry: None,
        addv_20d_rank_today: Some(800),
        // vol percentile 50, jump 10
        realized_vol_percentile_at_meme_min: Some(false),
        realized_vol_percentile_jump_at_meme_min: Some(false),
        intraday_dollar_volume_0930_to_1000_rank_today: Some(900),
        // ATR ratio 0.04, prior close 35
        atr_ratio_above_low_float_min: Some(false),
        prior_close_above_low_float_min: Some(true),
        // beta 1.1
        beta_qqq_above_mega_min: Some(true),
        // float 80M (>= 50M)
        float_below_low_float_max: Some(false),
        days_since_ipo_or_first_bar: Some(20),
    }
}

fn regional_bank_normal() -> ClassificationInputs<'static> {
    ClassificationInputs {
        ticker_type: Some("CS"),
        is_adr: Some(false),
        country_of_origin: Some("US"),
        market_cap_bucket: Some(MarketCapBucket::Mid),
        sector: Some("Financials"),
        industry: Some("Regional Banks"),
        sub_industry: Some("Regional Banks"),
        addv_20d_rank_today: Some(500),
        // vol percentile 40, jump 5
        realized_vol_percentile_at_meme_min: Some(false),
        realized_vol_percentile_jump_at_meme_min: Some(false),
        intraday_dollar_volume_0930_to_1000_rank_today: Some(700),
        // ATR ratio 0.02, prior close 45
        atr_ratio_above_low_float_min: Some(false),
        prior_close_above_low_float_min: Some(true),
        // beta 0.5
        beta_qqq_above_mega_min: Some(false),
        // float 120M
        float_below_low_float_max: Some(false),
        days_since_ipo_or_first_bar: Some(5_000),
    }
}

const ALL_FALSE: BehavioralTags = BehavioralTags {
    is_mega_cap_tech: false,
    is_large_cap_tech: false,
    is_semiconductor: false,
    is_biotech: false,
    is_regional_bank: false,
    is_energy: false,
    is_china_adr: false,
    is_low_float_candidate: false,
    is_meme_candidate: false,
    is_recent_ipo: false,
};

#[test]
fn snapshot_nvda_mega_cap_2024() {
    let got = classify(&nvda_mega_cap_2024());
    assert_eq!(got, BehavioralTags { is_mega_cap_tech: true, is_large_cap_tech: true, is_semiconductor: true, ..ALL_FALSE });
}

#[test]
fn snapshot_biotech_gapper_low_float() {
    let got = classify(&biotech_gapper_low_float_2021());
    assert_eq!(got, BehavioralTags { is_biotech: true, is_low_float_candidate: true, is_meme_candidate: true, ..ALL_FALSE });
}

#[test]
fn snapshot_baba_china_adr() {
    let got = classify(&baba_china_adr_2020());
    assert_eq!(got, BehavioralTags { is_china_adr: true, ..ALL_FALSE });
}

#[test]
fn snapshot_first_solar_recent_ipo() {
    let got = classify(&first_solar_ipo_2007());
    assert_eq!(got, BehavioralTags { is_energy: true, is_recent_ipo: true, ..ALL_FALSE });
}

#[test]
fn snapshot_regional_bank() {
    let got = classify(&regional_bank_normal());
    assert_eq!(got, BehavioralTags { is_regional_bank: true, ..ALL_FALSE });
}

#[test]
fn snapshot_missing_inputs_yields_all_false() {
    let got = classify(&ClassificationInputs::default());
    assert_eq!(got, BehavioralTags::default());
    assert_eq!(got, ALL_FALSE);
}

#[test]
fn sector_industry_ignores_surrounding_whitespace() {
    for code in ["3674", "6022", "6798", "0050", "abc", ""] {
        let padded = format!(" \t{code}\n ");
        assert_eq!(sector_industry(&padded), sector_industry(code));
        assert_eq!(sector_industry(padded.trim()), sector_industry(code));
    }
    assert_eq!(sector_industry("3674"), (Some("Technology"), Some("Semiconductors")));
    assert_eq!(sector_industry("6022").1, Some("Regional Banks"));
}
