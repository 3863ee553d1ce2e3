use chrono::{DateTime, Datelike, NaiveDate};
use momentum::dates::{format_date, parse_date, parse_date_opt, parse_timestamp, parse_ts};
use momentum::rest::{universe_row, TickerListItem};

fn listing() -> TickerListItem {
    TickerListItem {
        ticker: "AAPL".into(),
        name: Some("Apple Inc.".into()),
        market: Some("stocks".into()),
        locale: Some("us".into()),
        primary_exchange: Some("XNAS".into()),
        ticker_type: Some("CS".into()),
        active: true,
        currency_name: Some("usd".into()),
        cik: Some("0000320193".into()),
        composite_figi: None,
        share_class_figi: Some("BBG001S5N8V8".into()),
        last_updated_utc: Some("2024-01-02T03:04:05.123456789Z".into()),
        delisted_utc: Some("not a timestamp".into()),
    }
}

#[test]
fn universe_row_copies_fields_and_parses_timestamps() {
    let it = listing();
    let r = universe_row(&it);
    assert_eq!(r.display_symbol, "AAPL");
    assert_eq!(r.security_id.as_deref(), Some("BBG001S5N8V8"));
    assert_eq!(r.composite_figi, None);
    assert_eq!(r.name.as_deref(), Some("Apple Inc."));
    assert_eq!(r.primary_exchange.as_deref(), Some("XNAS"));
    assert!(r.active);
    let want = DateTime::parse_from_rfc3339("2024-01-02T03:04:05.123456789Z").unwrap().timestamp_nanos_opt();
    assert_eq!(r.last_updated_utc_ns, want);
    assert_eq!(r.last_updated_utc_ns, Some(1_704_164_645_123_456_789));
    assert_eq!(r.delisted_utc_ns, None);
}

#[test]
fn universe_row_takes_offsets_to_utc() {
    let mut it = listing();
    it.delisted_utc = Some("2024-01-01T19:00:00-05:00".into());
    it.composite_figi = Some("BBG000B9XRY4".into());
    let r = universe_row(&it);
    assert_eq!(r.delisted_utc_ns, Some(1_704_153_600_000_000_000));
    assert_eq!(r.security_id.as_deref(), Some("BBG000B9XRY4"));
}

#[test]
fn date_and_timestamp_parsers() {
    let d = NaiveDate::from_ymd_opt(2021, 3, 15).unwrap().num_days_from_ce();
    assert_eq!(parse_date("2021-03-15"), Some(d));
    assert_eq!(parse_date("2021-13-01"), None);
    assert_eq!(parse_date_opt(&Some("2021-03-15".into())), Some(d));
    assert_eq!(parse_date_opt(&None), None);
    assert_eq!(parse_timestamp("1970-01-01T00:00:01Z"), Some(1_000_000_000));
    assert_eq!(parse_ts(&None), None);
    assert_eq!(parse_ts(&Some("garbage".into())), None);
    assert_eq!(format_date(d).as_deref(), Some("2021-03-15"));
}

#[test]
fn et_second_of_day_reads_the_new_york_clock() {
    // 2017-11-24 18:00:00 UTC is 13:00 EST (Black Friday early close).
    let ns = DateTime::parse_from_rfc3339("2017-11-24T18:00:00Z").unwrap().timestamp_nanos_opt().unwrap();
    assert_eq!(momentum::dates::et_second_of_day(ns), 13 * 3600);
    // 2021-07-01 20:00:00 UTC is 16:00 EDT.
    let ns = DateTime::parse_from_rfc3339("2021-07-01T20:00:00Z").unwrap().timestamp_nanos_opt().unwrap();
    assert_eq!(momentum::dates::et_second_of_day(ns), 16 * 3600);
}
