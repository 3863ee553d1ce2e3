use chrono::{Datelike, NaiveDate};
use momentum::rest::{RestError, TickerAddress};
use momentum::ticker_details::{
    details_retry, merge_details, ClassifiedRow, DetailFields, PullStats, DETAILS_INITIAL_DELAY_MS,
    DETAILS_MAX_DELAY_MS,
};

fn fields() -> DetailFields {
    DetailFields {
        name: Some("Apple Inc.".into()),
        market: Some("stocks".into()),
        locale: Some("us".into()),
        primary_exchange: Some("XNAS".into()),
        ticker_type: Some("CS".into()),
        active: Some(true),
        currency_name: Some("usd".into()),
        cik: Some("0000320193".into()),
        composite_figi: Some("BBG000B9XRY4".into()),
        share_class_figi: Some("BBG001S5N8V8".into()),
        delisted_utc: None,
        sic_code: Some("3571".into()),
        sic_description: Some("ELECTRONIC COMPUTERS".into()),
        ticker_root: Some("AAPL".into()),
        total_employees: Some(161_000),
        list_date: Some("1980-12-12".into()),
        round_lot: Some(100),
        description: Some("Apple designs phones.".into()),
        address: Some(TickerAddress {
            city: Some("CUPERTINO".into()),
            state: Some("CA".into()),
            postal_code: Some("95014".into()),
            address1: None,
        }),
        homepage_url: Some("https://www.apple.com".into()),
    }
}

#[test]
fn details_fill_identity_and_take_descriptive_fields() {
    let mut row = ClassifiedRow { display_symbol: "AAPL".into(), name: Some("Kept".into()), ..Default::default() };
    merge_details(&mut row, fields());
    assert_eq!(row.name.as_deref(), Some("Kept"), "present identity field kept");
    assert_eq!(row.security_id.as_deref(), Some("BBG000B9XRY4"));
    assert_eq!(row.composite_figi.as_deref(), Some("BBG000B9XRY4"));
    assert_eq!(row.share_class_figi, None, "the share-class FIGI is not patched");
    assert_eq!(row.active, Some(true));
    assert_eq!(row.list_date, Some(NaiveDate::from_ymd_opt(1980, 12, 12).unwrap().num_days_from_ce()));
    assert_eq!(row.sic_code.as_deref(), Some("3571"));
    assert_eq!((row.address_city.as_deref(), row.address_state.as_deref()), (Some("CUPERTINO"), Some("CA")));
    assert_eq!(row.total_employees, Some(161_000));
}

#[test]
fn security_id_falls_back_to_the_share_class_figi_and_delisting_parses() {
    let mut d = fields();
    d.composite_figi = None;
    d.active = None;
    d.delisted_utc = Some("2022-06-15T00:00:00Z".into());
    d.list_date = Some("not a date".into());
    let mut row = ClassifiedRow { display_symbol: "X".into(), active: Some(false), list_date: Some(5), ..Default::default() };
    merge_details(&mut row, d);
    assert_eq!(row.security_id.as_deref(), Some("BBG001S5N8V8"));
    assert_eq!(row.active, Some(false), "no active flag in the response keeps the row's");
    assert_eq!(row.delisted_utc_ns, Some(1_655_251_200_000_000_000));
    assert_eq!(row.list_date, None, "an unparseable list date clears it");
}

#[test]
fn details_retry_doubles_up_to_the_ceiling() {
    let e = RestError::Status { status: 503, url: "u".into(), body: String::new() };
    let (wait, next) = details_retry(1, 5, DETAILS_INITIAL_DELAY_MS, &e).unwrap();
    assert!((200..=300).contains(&wait));
    assert_eq!(next, 400);
    assert_eq!(details_retry(2, 5, 20_000, &e).unwrap().1, DETAILS_MAX_DELAY_MS);
    assert_eq!(details_retry(5, 5, 200, &e), None, "last attempt");
    let not_found = RestError::Status { status: 404, url: "u".into(), body: String::new() };
    assert_eq!(details_retry(1, 5, 200, &not_found), None);
}

#[test]
fn pull_stats_tally_by_kind() {
    let mut s = PullStats::new(3);
    s.record_ok();
    s.record_failure(&RestError::Status { status: 404, url: "u".into(), body: String::new() });
    s.record_failure(&RestError::PaginationOverflow { cap: 1 });
    assert_eq!((s.requested, s.ok, s.err_404, s.err_429, s.err_5xx, s.err_other), (3, 1, 1, 0, 0, 1));
    assert_eq!(s.done(), 3);
}
