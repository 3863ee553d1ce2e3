use momentum::rest::{
    after_failure, after_page, apply_enrichment, check_page_cap, classify_failure, gap_indices, is_retryable,
    renames_of, retry_delay_ms, DetailIdentity, EnrichConfig, EnrichStats, FailureKind, PageStep,
    RawTickerEvent, RestError, RetryStep, TickerEventsStats, TickerListItem,
};

fn item(ticker: &str, active: bool, figi: Option<&str>, delisted: Option<&str>) -> TickerListItem {
    TickerListItem {
        ticker: ticker.into(),
        name: None,
        market: Some("stocks".into()),
        locale: None,
        primary_exchange: None,
        ticker_type: Some("CS".into()),
        active,
        currency_name: None,
        cik: None,
        composite_figi: figi.map(String::from),
        share_class_figi: None,
        last_updated_utc: None,
        delisted_utc: delisted.map(String::from),
    }
}

fn details(figi: Option<&str>, delisted: Option<&str>) -> DetailIdentity {
    DetailIdentity {
        name: Some("Dead Inc.".into()),
        market: Some("otc".into()),
        locale: Some("us".into()),
        primary_exchange: Some("XNYS".into()),
        ticker_type: Some("ETF".into()),
        currency_name: Some("usd".into()),
        cik: Some("0001234567".into()),
        composite_figi: figi.map(String::from),
        share_class_figi: Some("SCF".into()),
        last_updated_utc: Some("2025-01-02T03:04:05Z".into()),
        delisted_utc: delisted.map(String::from),
    }
}

fn status(s: u16) -> RestError {
    RestError::Status { status: s, url: "u".into(), body: String::new() }
}

#[test]
fn merge_fills_only_missing_fields() {
    let mut items = vec![item("DEAD", false, None, None)];
    let outcomes = vec![(0, Ok(details(Some("BBG0DEAD"), Some("2022-06-15T00:00:00Z"))))];
    let stats = apply_enrichment(&mut items, &outcomes);
    assert_eq!((stats.gap, stats.ok, stats.err), (1, 1, 0));
    let it = &items[0];
    assert_eq!(it.composite_figi.as_deref(), Some("BBG0DEAD"));
    assert_eq!(it.delisted_utc.as_deref(), Some("2022-06-15T00:00:00Z"));
    assert_eq!(it.market.as_deref(), Some("stocks"), "present field kept");
    assert_eq!(it.ticker_type.as_deref(), Some("CS"), "present field kept");
    assert_eq!(it.cik.as_deref(), Some("0001234567"));
    assert!(!momentum::rest::needs_enrichment(it));
}

#[test]
fn enrichment_patches_only_gap_rows() {
    let mut items = vec![
        item("AAPL", true, Some("BBG0AAPL"), None),
        item("NOTOK", true, None, None),
        item("DEAD", false, Some("BBG0DEAD"), None),
    ];
    let gap = gap_indices(&items);
    assert_eq!(gap, vec![1, 2], "the complete row gets no call");
    let outcomes = vec![
        (2, Ok(details(Some("BBG0DEAD"), Some("2022-06-15T00:00:00Z")))),
        (1, Ok(details(Some("BBG0NOTOK"), None))),
    ];
    let stats = apply_enrichment(&mut items, &outcomes);
    assert_eq!((stats.gap, stats.ok, stats.err), (2, 2, 0));
    assert_eq!(items[0].composite_figi.as_deref(), Some("BBG0AAPL"));
    assert_eq!(items[0].name, None, "rows outside the gap are untouched");
    assert_eq!(items[1].composite_figi.as_deref(), Some("BBG0NOTOK"));
    assert_eq!(items[2].delisted_utc.as_deref(), Some("2022-06-15T00:00:00Z"));
    assert!(gap_indices(&items).is_empty());
}

#[test]
fn enrichment_leaves_failed_rows_as_they_are() {
    let mut items = vec![item("UNKNOWN", true, None, None), item("SLOW", true, None, None)];
    let outcomes = vec![(0, Err(status(404))), (1, Err(status(503)))];
    let stats = apply_enrichment(&mut items, &outcomes);
    assert_eq!((stats.gap, stats.ok, stats.err), (2, 0, 2));
    assert_eq!((stats.err_404, stats.err_429, stats.err_5xx, stats.err_other), (1, 0, 1, 0));
    assert!(items[0].composite_figi.is_none());
    assert_eq!(items[1].ticker, "SLOW");
    assert!(items[1].composite_figi.is_none());
}

#[test]
fn gap_rows_are_listed_in_order() {
    let items = vec![
        item("A", true, Some("F"), None),
        item("B", true, None, None),
        item("C", false, Some("F"), None),
        item("D", false, Some("F"), Some("x")),
    ];
    assert_eq!(gap_indices(&items), vec![1, 2]);
}

#[test]
fn retries_cover_rate_limits_server_errors_and_transport_only() {
    assert!(is_retryable(&status(429)));
    assert!(is_retryable(&status(503)));
    assert!(!is_retryable(&status(404)));
    assert!(!is_retryable(&RestError::PaginationOverflow { cap: 3 }));
    assert_eq!(classify_failure(&status(404)), FailureKind::NotFound);
    assert_eq!(classify_failure(&status(429)), FailureKind::RateLimited);
    assert_eq!(classify_failure(&status(500)), FailureKind::ServerError);
    assert_eq!(classify_failure(&status(403)), FailureKind::Other);
}

#[test]
fn backoff_doubles_with_jitter_and_caps() {
    let c = EnrichConfig::default();
    assert_eq!((c.concurrency, c.max_attempts, c.base_backoff_ms, c.max_backoff_ms), (10, 5, 200, 30_000));
    for _ in 0..20 {
        let d1 = retry_delay_ms(&c, 1);
        assert!((400..=601).contains(&d1), "{d1}");
        let d10 = retry_delay_ms(&c, 10);
        assert!((30_000..=45_001).contains(&d10), "{d10}");
    }
    assert!(matches!(after_failure(&c, 5, &status(429)), RetryStep::GiveUp));
    assert!(matches!(after_failure(&c, 1, &status(404)), RetryStep::GiveUp));
    match after_failure(&c, 2, &status(502)) {
        RetryStep::RetryAfterMs(ms) => assert!((800..=1201).contains(&ms)),
        RetryStep::GiveUp => panic!("a 502 on attempt 2 of 5 is retried"),
    }
}

#[test]
fn failures_are_tallied_by_kind() {
    let mut s = EnrichStats::new(4);
    s.record_ok();
    s.record_failure(&status(404));
    s.record_failure(&status(429));
    s.record_failure(&status(500));
    assert_eq!((s.gap, s.ok, s.err, s.err_404, s.err_429, s.err_5xx, s.err_other), (4, 1, 3, 1, 1, 1, 0));
    let mut t = TickerEventsStats::new(3);
    t.record_ok(0);
    t.record_ok(2);
    t.record_failure(&status(418));
    assert_eq!((t.queried, t.ok, t.ok_with_events, t.err, t.err_other), (3, 2, 1, 1, 1));
}

#[test]
fn pagination_follows_non_empty_next_urls_up_to_the_cap() {
    assert!(matches!(after_page(Some("https://next".into())), PageStep::Next(u) if u == "https://next"));
    assert!(matches!(after_page(Some(String::new())), PageStep::Done));
    assert!(matches!(after_page(None), PageStep::Done));
    assert!(check_page_cap(1023, 1024).is_ok());
    assert!(matches!(check_page_cap(1024, 1024), Err(RestError::PaginationOverflow { cap: 1024 })));
}

#[test]
fn only_ticker_changes_become_renames() {
    let raw = vec![
        RawTickerEvent { date: "2022-06-09".into(), event_type: "ticker_change".into(), ticker_change: Some("META".into()) },
        RawTickerEvent { date: "2020-01-01".into(), event_type: "other".into(), ticker_change: None },
    ];
    let r = renames_of(&raw);
    assert_eq!(r.len(), 1);
    assert_eq!(r[0].new_ticker, "META");
    assert_eq!(r[0].date, "2022-06-09");
}

#[test]
fn security_id_prefers_the_composite_figi() {
    let mut it = item("X", true, Some("BBG0COMP"), None);
    it.share_class_figi = Some("BBG0SHARE".into());
    assert_eq!(momentum::rest::security_id_of(&it).as_deref(), Some("BBG0COMP"));
    it.composite_figi = None;
    assert_eq!(momentum::rest::security_id_of(&it).as_deref(), Some("BBG0SHARE"));
    it.share_class_figi = None;
    assert_eq!(momentum::rest::security_id_of(&it), None);
}
