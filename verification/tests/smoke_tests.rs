use chrono::{Datelike, NaiveDate};
use momentum::smoke::{smoke_checks, smoke_coverage, text_contains, SmokeRow, AAPL_LIST_DAY, ABNB_LIST_DAY};

fn row(sym: &str) -> SmokeRow {
    SmokeRow {
        display_symbol: sym.to_string(),
        sic_code: None,
        list_date: None,
        name: None,
        description: None,
        ticker_type: None,
        sic_description: None,
        market_cap_above_1t: None,
    }
}

fn good_aapl() -> SmokeRow {
    let mut r = row("AAPL");
    r.sic_code = Some("3571".into());
    r.list_date = Some(AAPL_LIST_DAY);
    r.market_cap_above_1t = Some(true);
    r
}

#[test]
fn listing_day_constants_are_the_calendar_days() {
    let aapl = NaiveDate::from_ymd_opt(1980, 12, 12).unwrap().num_days_from_ce();
    let abnb = NaiveDate::from_ymd_opt(2020, 12, 10).unwrap().num_days_from_ce();
    assert_eq!(AAPL_LIST_DAY, aapl);
    assert_eq!(ABNB_LIST_DAY, abnb);
}

#[test]
fn missing_aapl_is_a_single_failed_check() {
    let checks = smoke_checks(&vec![row("MSFT")]);
    assert_eq!(checks.len(), 1);
    assert_eq!(checks[0].symbol, "AAPL");
    assert_eq!(checks[0].label, "not in result set");
    assert!(!checks[0].passed);
}

#[test]
fn a_good_aapl_row_passes_its_three_checks() {
    let checks = smoke_checks(&vec![good_aapl()]);
    let labels: Vec<&str> = checks.iter().map(|c| c.label.as_str()).collect();
    assert_eq!(labels, vec!["sic_code == 3571", "list_date == 1980-12-12", "market_cap > $1T"]);
    assert!(checks.iter().all(|c| c.passed));
}

#[test]
fn aapl_without_a_market_cap_fails_the_cap_check() {
    let mut r = good_aapl();
    r.market_cap_above_1t = None;
    let checks = smoke_checks(&vec![r]);
    assert!(checks[0].passed && checks[1].passed);
    assert!(!checks[2].passed);
}

#[test]
fn the_last_row_of_a_symbol_decides() {
    let mut stale = good_aapl();
    stale.sic_code = Some("9999".into());
    let checks = smoke_checks(&vec![good_aapl(), stale.clone()]);
    assert!(!checks[0].passed);
    let checks = smoke_checks(&vec![stale, good_aapl()]);
    assert!(checks[0].passed);
}

#[test]
fn soxl_leverage_hint_comes_from_the_lowercased_name() {
    let mut soxl = row("SOXL");
    soxl.name = Some("Direxion Daily Semiconductor Bull 3X Shares".into());
    let checks = smoke_checks(&vec![good_aapl(), soxl]);
    assert_eq!(checks.len(), 4);
    assert_eq!(checks[3].symbol, "SOXL");
    assert!(checks[3].passed);
    let mut plain = row("SOXL");
    plain.name = Some("Semiconductor Index Fund".into());
    let checks = smoke_checks(&vec![good_aapl(), plain]);
    assert!(!checks[3].passed);
}

#[test]
fn baba_spy_and_abnb_checks_follow_aapl_in_order() {
    let mut baba = row("BABA");
    baba.sic_description = Some("SERVICES-BUSINESS SERVICES, CHINA".into());
    let mut spy = row("SPY");
    spy.ticker_type = Some("ETF".into());
    let mut abnb = row("ABNB");
    abnb.list_date = Some(ABNB_LIST_DAY);
    let checks = smoke_checks(&vec![spy, baba, abnb, good_aapl()]);
    let syms: Vec<&str> = checks.iter().map(|c| c.symbol.as_str()).collect();
    assert_eq!(syms, vec!["AAPL", "AAPL", "AAPL", "ABNB", "BABA", "SPY"]);
    assert!(checks.iter().all(|c| c.passed));
}

#[test]
fn an_adr_type_alone_satisfies_the_baba_check() {
    let mut baba = row("BABA");
    baba.ticker_type = Some("ADRC".into());
    let checks = smoke_checks(&vec![good_aapl(), baba]);
    assert!(checks[3].passed);
    let checks = smoke_checks(&vec![good_aapl(), row("BABA")]);
    assert!(!checks[3].passed);
}

#[test]
fn smoke_coverage_counts_present_fields() {
    let mut a = row("A");
    a.sic_code = Some("1".into());
    let mut b = row("B");
    b.list_date = Some(1);
    b.sic_code = Some("2".into());
    assert_eq!(smoke_coverage(&vec![a, b, row("C")]), (2, 1));
}

#[test]
fn text_contains_finds_substrings() {
    assert!(text_contains("abc", ""));
    assert!(text_contains("hello world", "o w"));
    assert!(text_contains("abc", "abc"));
    assert!(!text_contains("ab", "abc"));
    assert!(!text_contains("abcabd", "abe"));
}
