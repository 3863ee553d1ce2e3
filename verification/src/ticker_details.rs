//! Per-ticker classification details: how a detail response patches a
//! classified row, the retry schedule of the per-ticker pull, and its
//! tallies.

use vstd::prelude::*;
use crate::dates::{chrono_parse_ymd, chrono_rfc3339_ns, parse_ymd, rfc3339_ns};
use crate::rest::{
    classify_failure, failure_kind, fill, is_retryable, random_up_to, retryable, tallied, FailureKind, RestError,
    TickerAddress,
};

verus! {

/// The non-price fields of a classified ticker row (prices and share counts
/// are carried beside it).
#[derive(Debug, Clone, Default)]
pub struct ClassifiedRow {
    pub security_id: Option<String>,
    pub display_symbol: String,
    pub name: Option<String>,
    pub market: Option<String>,
    pub locale: Option<String>,
    pub primary_exchange: Option<String>,
    pub ticker_type: Option<String>,
    pub active: Option<bool>,
    pub currency_name: Option<String>,
    pub cik: Option<String>,
    pub composite_figi: Option<String>,
    pub share_class_figi: Option<String>,
    /// Delisting instant, UTC nanoseconds.
    pub delisted_utc_ns: Option<i64>,
    /// Listing day number.
    pub list_date: Option<i32>,
    pub sic_code: Option<String>,
    pub sic_description: Option<String>,
    pub ticker_root: Option<String>,
    pub total_employees: Option<i64>,
    pub round_lot: Option<i32>,
    pub description: Option<String>,
    pub address_state: Option<String>,
    pub address_city: Option<String>,
    pub homepage_url: Option<String>,
}

/// The non-price fields of a per-ticker detail response.
#[derive(Debug, Clone)]
pub struct DetailFields {
    pub name: Option<String>,
    pub market: Option<String>,
    pub locale: Option<String>,
    pub primary_exchange: Option<String>,
    pub ticker_type: Option<String>,
    pub active: Option<bool>,
    pub currency_name: Option<String>,
    pub cik: Option<String>,
    pub composite_figi: Option<String>,
    pub share_class_figi: Option<String>,
    pub delisted_utc: Option<String>,
    pub sic_code: Option<String>,
    pub sic_description: Option<String>,
    pub ticker_root: Option<String>,
    pub total_employees: Option<i64>,
    pub list_date: Option<String>,
    pub round_lot: Option<i32>,
    pub description: Option<String>,
    pub address: Option<TickerAddress>,
    pub homepage_url: Option<String>,
}

/// The row after a detail response: identity fields the row lacks are
/// filled (the security id from the composite, else the share-class FIGI);
/// `active` and the delisting instant follow the response where it has
/// them; list date, address and the descriptive fields are the response's.
pub open spec fn details_merged(row: ClassifiedRow, d: DetailFields) -> ClassifiedRow {
    ClassifiedRow {
        security_id: if row.security_id is None { fill(d.composite_figi, d.share_class_figi) } else { row.security_id },
        display_symbol: row.display_symbol,
        name: fill(row.name, d.name),
        market: fill(row.market, d.market),
        locale: fill(row.locale, d.locale),
        primary_exchange: fill(row.primary_exchange, d.primary_exchange),
        ticker_type: fill(row.ticker_type, d.ticker_type),
        active: if d.active is Some { d.active } else { row.active },
        currency_name: fill(row.currency_name, d.currency_name),
        cik: fill(row.cik, d.cik),
        composite_figi: fill(row.composite_figi, d.composite_figi),
        share_class_figi: row.share_class_figi,
        delisted_utc_ns: match d.delisted_utc {
            Some(s) => chrono_rfc3339_ns(s@),
            None => row.delisted_utc_ns,
        },
        list_date: match d.list_date {
            Some(s) => chrono_parse_ymd(s@),
            None => row.list_date,
        },
        sic_code: d.sic_code,
        sic_description: d.sic_description,
        ticker_root: d.ticker_root,
        total_employees: d.total_employees,
        round_lot: d.round_lot,
        description: d.description,
        address_state: match d.address {
            Some(a) => a.state,
            None => row.address_state,
        },
        address_city: match d.address {
            Some(a) => a.city,
            None => row.address_city,
        },
        homepage_url: d.homepage_url,
    }
}

fn take_fill(own: &mut Option<String>, other: Option<String>)
    ensures
        *final(own) == fill(*old(own), other),
{
    if own.is_none() {
        *own = other;
    }
}

/// Patches a classified row from a detail response.
pub fn merge_details(row: &mut ClassifiedRow, d: DetailFields)
    ensures
        *final(row) == details_merged(*old(row), d),
{
    let ghost d0 = d;
    let DetailFields {
        name, market, locale, primary_exchange, ticker_type, active, currency_name, cik, composite_figi,
        share_class_figi, delisted_utc, sic_code, sic_description, ticker_root, total_employees, list_date,
        round_lot, description, address, homepage_url,
    } = d;
    take_fill(&mut row.name, name);
    take_fill(&mut row.market, market);
    take_fill(&mut row.locale, locale);
    take_fill(&mut row.primary_exchange, primary_exchange);
    take_fill(&mut row.ticker_type, ticker_type);
    if active.is_some() {
        row.active = active;
    }
    take_fill(&mut row.currency_name, currency_name);
    take_fill(&mut row.cik, cik);
    if row.security_id.is_none() {
        row.security_id = match &composite_figi {
            Some(c) => Some(c.clone()),
            None => share_class_figi,
        };
    }
    take_fill(&mut row.composite_figi, composite_figi);
    match delisted_utc {
        Some(s) => {
            row.delisted_utc_ns = rfc3339_ns(s.as_str());
        },
        None => {},
    }
    match list_date {
        Some(s) => {
            row.list_date = parse_ymd(s.as_str());
        },
        None => {},
    }
    row.sic_code = sic_code;
    row.sic_description = sic_description;
    row.ticker_root = ticker_root;
    row.total_employees = total_employees;
    row.round_lot = round_lot;
    row.description = description;
    match address {
        Some(a) => {
            row.address_state = a.state;
            row.address_city = a.city;
        },
        None => {},
    }
    row.homepage_url = homepage_url;
}

// ---------------------------------------------------------------------------
// Retry schedule of the per-ticker pull
// ---------------------------------------------------------------------------

/// First wait of the per-ticker pull.
pub const DETAILS_INITIAL_DELAY_MS: u64 = 200;

/// Ceiling of the per-ticker pull's delay.
pub const DETAILS_MAX_DELAY_MS: u64 = 30_000;

/// Attempts per ticker.
pub const DETAILS_MAX_ATTEMPTS: u32 = 5;

/// After the `attempt`-th failure `e` (counting from 1) with the current
/// delay: give up (`None`) on the last attempt or a failure that is not
/// retryable; else wait the delay plus a random jitter of at most half of
/// it, and double the delay up to the ceiling (`Some((wait, next))`).
pub fn details_retry(attempt: u32, max_attempts: u32, delay_ms: u64, e: &RestError) -> (r: Option<(u64, u64)>)
    requires
        delay_ms <= DETAILS_MAX_DELAY_MS,
    ensures
        (attempt == max_attempts || !retryable(*e)) <==> r is None,
        r matches Some((wait, next)) ==> {
            &&& delay_ms <= wait <= delay_ms + delay_ms / 2
            &&& next == (if 2 * delay_ms < DETAILS_MAX_DELAY_MS { 2 * delay_ms } else { DETAILS_MAX_DELAY_MS as int })
        },
{
    if attempt == max_attempts || !is_retryable(e) {
        return None;
    }
    let jitter = random_up_to(delay_ms / 2);
    let doubled = delay_ms * 2;
    let next = if doubled < DETAILS_MAX_DELAY_MS { doubled } else { DETAILS_MAX_DELAY_MS };
    Some((delay_ms + jitter, next))
}

/// The delay never leaves `[DETAILS_INITIAL_DELAY_MS, DETAILS_MAX_DELAY_MS]`
/// once started from the initial value.
pub proof fn law_details_delay_stays_in_range(delay_ms: u64)
    requires
        DETAILS_INITIAL_DELAY_MS <= delay_ms <= DETAILS_MAX_DELAY_MS,
    ensures
        ({
            let next = if 2 * delay_ms < DETAILS_MAX_DELAY_MS { 2 * delay_ms } else { DETAILS_MAX_DELAY_MS as int };
            DETAILS_INITIAL_DELAY_MS <= next <= DETAILS_MAX_DELAY_MS && delay_ms <= next
        }),
{
}

// ---------------------------------------------------------------------------
// Tallies of the per-ticker pull
// ---------------------------------------------------------------------------

/// Counts of the per-ticker pull.
#[derive(Debug, Clone, Copy, Default)]
pub struct PullStats {
    pub requested: usize,
    pub ok: usize,
    pub err_404: usize,
    pub err_429: usize,
    pub err_5xx: usize,
    pub err_other: usize,
}

impl PullStats {
    pub open spec fn failure_counts(self) -> (usize, usize, usize, usize) {
        (self.err_404, self.err_429, self.err_5xx, self.err_other)
    }

    pub fn new(requested: usize) -> (r: Self)
        ensures
            r.requested == requested,
            r.ok == 0,
            r.failure_counts() == (0usize, 0usize, 0usize, 0usize),
    {
        PullStats { requested, ok: 0, err_404: 0, err_429: 0, err_5xx: 0, err_other: 0 }
    }

    pub fn record_ok(&mut self)
        requires
            old(self).ok < usize::MAX,
        ensures
            final(self).ok == old(self).ok + 1,
            final(self).requested == old(self).requested,
            final(self).failure_counts() == old(self).failure_counts(),
    {
        self.ok = self.ok + 1;
    }

    pub fn record_failure(&mut self, e: &RestError)
        requires
            old(self).err_404 < usize::MAX,
            old(self).err_429 < usize::MAX,
            old(self).err_5xx < usize::MAX,
            old(self).err_other < usize::MAX,
        ensures
            final(self).requested == old(self).requested,
            final(self).ok == old(self).ok,
            ({
                let c = final(self).failure_counts();
                (c.0 as int, c.1 as int, c.2 as int, c.3 as int)
            }) == tallied(old(self).failure_counts(), failure_kind(*e)),
    {
        match classify_failure(e) {
            FailureKind::NotFound => self.err_404 = self.err_404 + 1,
            FailureKind::RateLimited => self.err_429 = self.err_429 + 1,
            FailureKind::ServerError => self.err_5xx = self.err_5xx + 1,
            FailureKind::Other => self.err_other = self.err_other + 1,
        }
    }

    /// Tickers answered so far, successfully or not.
    pub fn done(&self) -> (r: usize)
        requires
            self.ok + self.err_404 + self.err_429 + self.err_5xx + self.err_other <= usize::MAX,
        ensures
            r == self.ok + self.err_404 + self.err_429 + self.err_5xx + self.err_other,
    {
        self.ok + self.err_404 + self.err_429 + self.err_5xx + self.err_other
    }
}

} // verus!
