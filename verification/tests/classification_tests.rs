use chrono::{Datelike, NaiveDate};
use momentum::classification::{days_since_listing, security_flags, LISTING_STATUS};

fn day(y: i32, m: u32, d: u32) -> i32 {
    NaiveDate::from_ymd_opt(y, m, d).unwrap().num_days_from_ce()
}

#[test]
fn common_stock_etf_and_warrant_rows_get_their_flags() {
    let cs = security_flags(Some("CS"), Some("3674"), false, false);
    assert_eq!(cs.is_common_stock, Some(true));
    assert_eq!(cs.is_etf, Some(false));
    assert!(!cs.is_spac);
    let etf = security_flags(Some("ETF"), None, false, false);
    assert_eq!(etf.is_etf, Some(true));
    assert_eq!(etf.is_common_stock, Some(false));
    let w = security_flags(Some("WARRANT"), None, false, false);
    assert_eq!(w.is_warrant, Some(true));
    assert_eq!(w.is_etf, Some(false));
}

#[test]
fn fund_types_all_count_as_etfs() {
    for t in ["ETF", "ETV", "ETS", "FUND"] {
        assert_eq!(security_flags(Some(t), None, false, false).is_etf, Some(true), "{t}");
    }
    assert_eq!(security_flags(Some("ETN"), None, false, false).is_etf, Some(false));
    assert_eq!(security_flags(Some("ETN"), None, false, false).is_etn, Some(true));
}

#[test]
fn leverage_and_inverse_need_a_fund_type() {
    let lev = security_flags(Some("ETF"), None, true, false);
    assert!(lev.is_leveraged_etf && !lev.is_inverse_etf);
    let inv = security_flags(Some("FUND"), None, false, true);
    assert!(inv.is_inverse_etf);
    let cs = security_flags(Some("CS"), None, true, true);
    assert!(!cs.is_leveraged_etf && !cs.is_inverse_etf);
    let unknown = security_flags(None, None, true, true);
    assert!(!unknown.is_leveraged_etf && !unknown.is_inverse_etf);
}

#[test]
fn adr_is_a_type_prefix() {
    assert_eq!(security_flags(Some("ADRC"), None, false, false).is_adr, Some(true));
    assert_eq!(security_flags(Some("ADR"), None, false, false).is_adr, Some(true));
    assert_eq!(security_flags(Some("AD"), None, false, false).is_adr, Some(false));
    assert_eq!(security_flags(Some("XADR"), None, false, false).is_adr, Some(false));
}

#[test]
fn unknown_type_leaves_type_flags_null_but_spac_reads_the_sic() {
    let f = security_flags(None, Some("6770"), false, false);
    assert_eq!(f.is_common_stock, None);
    assert_eq!(f.is_etf, None);
    assert_eq!(f.is_adr, None);
    assert_eq!(f.is_unit, None);
    assert!(f.is_spac);
    assert_eq!(security_flags(Some("PFD"), None, false, false).is_preferred, Some(true));
    assert_eq!(security_flags(Some("UNIT"), None, false, false).is_unit, Some(true));
}

#[test]
fn days_since_listing_counts_calendar_days_from_the_list_date() {
    let d = day(2021, 3, 15);
    assert_eq!(days_since_listing(d, Some(day(2010, 1, 4)), None, day(2016, 6, 8)), Some(4088));
    assert_eq!(LISTING_STATUS, "trading");
}

#[test]
fn first_bar_counts_only_after_the_grace_period() {
    let start = day(2016, 6, 8);
    let d = day(2016, 7, 1);
    assert_eq!(days_since_listing(d, None, Some(start + 7), start), None);
    assert_eq!(days_since_listing(d, None, Some(start + 8), start), Some(d - start - 8));
    assert_eq!(days_since_listing(d, None, None, start), None);
    // A list date wins over the first bar.
    assert_eq!(days_since_listing(d, Some(d - 1), Some(start + 8), start), Some(1));
}

use momentum::shares::{ShareFiling, SharesLookup};

fn filing(sid: Option<&str>, ticker: &str, d: i32, shares: Option<f64>) -> ShareFiling {
    ShareFiling {
        security_id: sid.map(String::from),
        ticker: ticker.to_string(),
        filing_day: d,
        shares_bits: shares.filter(|s| *s > 0.0).map(f64::to_bits),
    }
}

fn shares_at(l: &SharesLookup, sid: &str, d: i32) -> Option<f64> {
    l.as_of(sid, d).map(f64::from_bits)
}

#[test]
fn shares_as_of_takes_the_latest_filing_on_or_before_the_day() {
    let l = SharesLookup::from_filings(&vec![
        filing(Some("S1"), "AAA", day(2021, 2, 1), Some(200.0)),
        filing(Some("S1"), "AAA", day(2020, 11, 1), Some(100.0)),
        filing(Some("S2"), "BBB", day(2020, 1, 1), Some(7.0)),
    ]);
    assert_eq!(shares_at(&l, "S1", day(2020, 10, 31)), None);
    assert_eq!(shares_at(&l, "S1", day(2020, 11, 1)), Some(100.0));
    assert_eq!(shares_at(&l, "S1", day(2021, 1, 31)), Some(100.0));
    assert_eq!(shares_at(&l, "S1", day(2021, 3, 15)), Some(200.0));
    assert_eq!(shares_at(&l, "S2", day(2021, 3, 15)), Some(7.0));
    assert_eq!(shares_at(&l, "S3", day(2021, 3, 15)), None);
    assert_eq!(l.securities(), 2);
}

#[test]
fn same_day_filings_resolve_to_the_larger_count_whatever_the_file_order() {
    let d = day(2021, 2, 1);
    let a = SharesLookup::from_filings(&vec![filing(Some("S"), "X", d, Some(300.0)), filing(Some("S"), "X", d, Some(250.0))]);
    let b = SharesLookup::from_filings(&vec![filing(Some("S"), "X", d, Some(250.0)), filing(Some("S"), "X", d, Some(300.0))]);
    assert_eq!(shares_at(&a, "S", d), Some(300.0));
    assert_eq!(shares_at(&b, "S", d), Some(300.0));
}

#[test]
fn filings_without_a_positive_count_are_skipped_and_ticker_keys_a_missing_id() {
    let d = day(2021, 2, 1);
    let l = SharesLookup::from_filings(&vec![
        filing(None, "TICK", d, Some(50.0)),
        filing(Some("S"), "X", d, Some(0.0)),
        filing(Some("S"), "X", d, None),
    ]);
    assert_eq!(shares_at(&l, "TICK", d), Some(50.0));
    assert_eq!(shares_at(&l, "S", d), None);
    assert_eq!(l.securities(), 1);
}
