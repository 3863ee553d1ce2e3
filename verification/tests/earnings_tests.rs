use chrono::{Datelike, NaiveDate};
use chrono_tz::America::New_York;
use momentum::earnings::{EarningsEvent, FilingLite};
use momentum::earnings_lookup::EarningsLookup;

fn day(y: i32, m: u32, d: u32) -> i32 {
    NaiveDate::from_ymd_opt(y, m, d).unwrap().num_days_from_ce()
}

fn filing(
    sid: &str,
    filing_date: (i32, u32, u32),
    acceptance_ns: Option<i64>,
    accession: Option<&str>,
    timeframe: &str,
    fy: &str,
    fp: &str,
) -> FilingLite {
    FilingLite {
        security_id: Some(sid.into()),
        ticker: sid.into(),
        filing_date: day(filing_date.0, filing_date.1, filing_date.2),
        acceptance_datetime_ns: acceptance_ns,
        accession_number: accession.map(|s| s.to_string()),
        timeframe: Some(timeframe.into()),
        fiscal_period: Some(fp.into()),
        fiscal_year: Some(fy.into()),
    }
}

fn ns_at_et(y: i32, mo: u32, d: u32, h: u32, mi: u32) -> i64 {
    chrono::TimeZone::with_ymd_and_hms(&New_York, y, mo, d, h, mi, 0)
        .unwrap()
        .timestamp_nanos_opt()
        .unwrap()
}

#[test]
fn derive_groups_revisions_and_classifies_timing() {
    // Original 10-Q accepted 2021-07-27 16:32 ET, amended a week later.
    let filings = vec![
        filing("BBG1", (2021, 7, 27), Some(ns_at_et(2021, 7, 27, 16, 32)), None, "quarterly", "2021", "Q2"),
        filing("BBG1", (2021, 8, 3), Some(ns_at_et(2021, 8, 3, 9, 1)), None, "quarterly", "2021", "Q2"),
    ];
    let events = momentum::earnings::derive(&filings, &Vec::new());
    assert_eq!(events.len(), 1);
    let e = &events[0];
    assert_eq!(e.earnings_date, day(2021, 7, 27));
    assert_eq!(e.report_timing, "after_close");
    assert_eq!(e.revision_count, 1);
    assert_eq!(e.earnings_window, "Q2");
    assert_eq!(e.source, "acceptance");
}

#[test]
fn derive_uses_backfill_then_filing_date_fallback_and_skips_ttm() {
    let backfill = vec![("acc-123".to_string(), ns_at_et(2019, 2, 21, 7, 45))];
    let filings = vec![
        // acceptance null, backfill hit: before_open
        filing("BBG2", (2019, 2, 21), None, Some("acc-123"), "annual", "2018", "FY"),
        // acceptance null, no backfill: filing_date + unknown
        filing("BBG3", (2020, 5, 11), None, Some("acc-999"), "quarterly", "2020", "Q1"),
        // ttm rows never become events
        filing("BBG3", (2020, 5, 11), None, None, "ttm", "2020", "Q1"),
    ];
    let events = momentum::earnings::derive(&filings, &backfill);
    assert_eq!(events.len(), 2);
    let b2 = events.iter().find(|e| e.security_id == "BBG2").unwrap();
    assert_eq!(b2.report_timing, "before_open");
    assert_eq!(b2.source, "edgar_backfill");
    let b3 = events.iter().find(|e| e.security_id == "BBG3").unwrap();
    assert_eq!(b3.report_timing, "unknown");
    assert_eq!(b3.source, "filing_date");
    assert_eq!(b3.earnings_date, day(2020, 5, 11));
}

#[test]
fn q4_and_fy_on_same_date_collapse_to_quarterly_label() {
    let ns = Some(ns_at_et(2022, 2, 1, 17, 0));
    let filings = vec![
        filing("BBG4", (2022, 2, 1), ns, None, "annual", "2021", "FY"),
        filing("BBG4", (2022, 2, 1), ns, None, "quarterly", "2021", "Q4"),
    ];
    let events = momentum::earnings::derive(&filings, &Vec::new());
    assert_eq!(events.len(), 1, "grain is (sid, earnings_date)");
    assert_eq!(events[0].earnings_window, "Q4");
}

#[test]
fn batch_matches_schema_and_lookup_answers_proximity() {
    let filings = vec![
        filing("BBG1", (2021, 4, 28), Some(ns_at_et(2021, 4, 28, 16, 31)), None, "quarterly", "2021", "Q1"),
        filing("BBG1", (2021, 7, 27), Some(ns_at_et(2021, 7, 27, 16, 32)), None, "quarterly", "2021", "Q2"),
    ];
    let events = momentum::earnings::derive(&filings, &Vec::new());
    assert_eq!(events.len(), 2);

    let lk = EarningsLookup::from_events(&events);
    let d = day(2021, 8, 6);
    assert_eq!(lk.days_since_last("BBG1", d), Some(10));
    let (is_day, timing) = lk.on_day("BBG1", day(2021, 7, 27));
    assert!(is_day);
    assert_eq!(timing, Some("after_close"));
    assert_eq!(lk.days_since_last("BBG1", day(2021, 1, 1)), None);
    assert_eq!(lk.days_since_last("NOPE", d), None);
}

#[test]
fn events_come_sorted_by_security_then_date() {
    let filings = vec![
        filing("BBG9", (2021, 7, 27), Some(ns_at_et(2021, 7, 27, 8, 0)), None, "quarterly", "2021", "Q2"),
        filing("BBG1", (2021, 7, 28), Some(ns_at_et(2021, 7, 28, 12, 0)), None, "quarterly", "2021", "Q2"),
        filing("BBG1", (2021, 4, 28), Some(ns_at_et(2021, 4, 28, 12, 0)), None, "quarterly", "2021", "Q1"),
    ];
    let events = momentum::earnings::derive(&filings, &Vec::new());
    let keys: Vec<(String, i32)> = events.iter().map(|e| (e.security_id.clone(), e.earnings_date)).collect();
    assert_eq!(
        keys,
        vec![
            ("BBG1".to_string(), day(2021, 4, 28)),
            ("BBG1".to_string(), day(2021, 7, 28)),
            ("BBG9".to_string(), day(2021, 7, 27)),
        ]
    );
    assert_eq!(events[1].report_timing, "during_market");
    assert_eq!(events[2].report_timing, "before_open");
    for e in &events {
        assert_eq!(e.announced_at_date, e.earnings_date);
        assert_eq!(e.revision_count, 0);
    }
}

#[test]
fn filings_without_fiscal_identity_are_their_own_periods() {
    let mut a = filing("BBG5", (2020, 3, 2), None, None, "quarterly", "2020", "Q1");
    a.fiscal_year = None;
    let mut b = filing("BBG5", (2020, 3, 9), None, None, "quarterly", "2020", "Q1");
    b.fiscal_year = None;
    let events = momentum::earnings::derive(&vec![a, b], &Vec::new());
    assert_eq!(events.len(), 2);
    assert!(events.iter().all(|e| e.revision_count == 0 && e.source == "filing_date"));
}

#[test]
fn ticker_stands_in_for_a_missing_security_id() {
    let mut f = filing("BBG6", (2020, 3, 2), None, None, "annual", "2019", "FY");
    f.security_id = None;
    f.ticker = "TICK".into();
    let events = momentum::earnings::derive(&vec![f], &Vec::new());
    assert_eq!(events.len(), 1);
    assert_eq!(events[0].security_id, "TICK");
}

#[test]
fn lookup_counts_securities_and_prefers_the_first_row_of_a_day() {
    let ev = |sid: &str, d: i32, timing: &str| EarningsEvent {
        security_id: sid.into(),
        earnings_date: d,
        report_timing: timing.into(),
        announced_at_date: d,
        earnings_window: "Q1".into(),
        revision_count: 0,
        source: "acceptance".into(),
    };
    let lk = EarningsLookup::from_events(&vec![
        ev("A", 100, "before_open"),
        ev("B", 100, "after_close"),
        ev("A", 100, "during_market"),
        ev("A", 90, "after_close"),
    ]);
    assert_eq!(lk.securities(), 2);
    assert_eq!(lk.on_day("A", 100), (true, Some("before_open")));
    assert_eq!(lk.on_day("A", 95), (false, None));
    assert_eq!(lk.days_since_last("A", 100), Some(0));
    assert_eq!(lk.days_since_last("A", 99), Some(9));
}

#[test]
fn an_acceptance_instant_leads_its_period_over_a_bare_filing_date() {
    // Same period, same filing date: one filing has no acceptance instant,
    // the other was accepted after the close. The instant decides.
    let filings = vec![
        filing("S", (2021, 7, 27), None, None, "quarterly", "2021", "Q2"),
        filing("S", (2021, 7, 27), Some(ns_at_et(2021, 7, 27, 16, 32)), None, "quarterly", "2021", "Q2"),
    ];
    let events = momentum::earnings::derive(&filings, &Vec::new());
    assert_eq!(events.len(), 1);
    assert_eq!(events[0].earnings_date, day(2021, 7, 27));
    assert_eq!(events[0].report_timing, "after_close");
    assert_eq!(events[0].source, "acceptance");
    assert_eq!(events[0].revision_count, 1);
    // A bare filing dated earlier than the accepted one does not lead either.
    let filings = vec![
        filing("S", (2021, 7, 20), None, None, "quarterly", "2021", "Q2"),
        filing("S", (2021, 7, 27), Some(ns_at_et(2021, 7, 27, 8, 0)), None, "quarterly", "2021", "Q2"),
    ];
    let events = momentum::earnings::derive(&filings, &Vec::new());
    assert_eq!(events[0].earnings_date, day(2021, 7, 27));
    assert_eq!(events[0].report_timing, "before_open");
}

#[test]
fn every_event_has_a_known_timing_and_source_and_unknown_timing_means_filing_date() {
    let backfill = vec![("acc-9".to_string(), ns_at_et(2020, 5, 1, 12, 0))];
    let filings = vec![
        filing("A", (2020, 2, 3), Some(ns_at_et(2020, 2, 3, 8, 0)), None, "quarterly", "2019", "Q4"),
        filing("A", (2020, 2, 3), None, None, "annual", "2019", "FY"),
        filing("B", (2020, 5, 1), None, Some("acc-9"), "quarterly", "2020", "Q1"),
        filing("C", (2020, 8, 10), None, None, "quarterly", "2020", "Q2"),
        filing("D", (2020, 8, 10), None, None, "ttm", "2020", "TTM"),
    ];
    let events = momentum::earnings::derive(&filings, &backfill);
    assert_eq!(events.len(), 3, "the TTM row leads nothing");
    for e in &events {
        assert!(["before_open", "during_market", "after_close", "unknown"].contains(&e.report_timing.as_str()));
        assert!(["acceptance", "edgar_backfill", "filing_date"].contains(&e.source.as_str()));
        assert_eq!(e.report_timing == "unknown", e.source == "filing_date");
    }
    let a = events.iter().find(|e| e.security_id == "A").unwrap();
    assert_eq!(a.earnings_window, "Q4", "Q4 and FY on one date collapse under the quarterly label");
    let b = events.iter().find(|e| e.security_id == "B").unwrap();
    assert_eq!((b.report_timing.as_str(), b.source.as_str()), ("during_market", "edgar_backfill"));
    let c = events.iter().find(|e| e.security_id == "C").unwrap();
    assert_eq!((c.report_timing.as_str(), c.source.as_str()), ("unknown", "filing_date"));
}
