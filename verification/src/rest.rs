//! The decision logic of the REST ingest: which universe rows need a
//! per-ticker enrichment call, how a detail response patches a row, which
//! failures are retried and after how long, how failures are tallied, and
//! when a paginated listing stops.
//!
//! The HTTP calls, the concurrency and the sleeping live with the caller,
//! which hands each response or failure to these functions.

use vstd::prelude::*;
use vstd::arithmetic::power2::pow2;
use crate::dates::{chrono_rfc3339_ns, parse_ts};

verus! {

/// Transport failures of the HTTP client.
#[verifier::external_type_specification]
#[verifier::external_body]
pub struct ExReqwestError(reqwest::Error);

/// A failed REST call.
pub enum RestError {
    /// Transport-level failure.
    Http(reqwest::Error),
    /// A non-success status.
    Status { status: u16, url: String, body: String },
    /// A listing ran past its page cap.
    PaginationOverflow { cap: usize },
}

/// Retried: rate limiting (429), server errors (5xx) and transport errors.
pub open spec fn retryable(e: RestError) -> bool {
    match e {
        RestError::Status { status, .. } => status == 429 || status >= 500,
        RestError::Http(_) => true,
        RestError::PaginationOverflow { .. } => false,
    }
}

pub fn is_retryable(e: &RestError) -> (r: bool)
    ensures
        r == retryable(*e),
{
    match e {
        RestError::Status { status, .. } => *status == 429 || *status >= 500,
        RestError::Http(_) => true,
        RestError::PaginationOverflow { .. } => false,
    }
}

/// Street address of a ticker's issuer.
#[derive(Debug, Clone)]
pub struct TickerAddress {
    pub city: Option<String>,
    pub state: Option<String>,
    pub postal_code: Option<String>,
    pub address1: Option<String>,
}

/// One row of the ticker listing.
#[derive(Debug, Clone)]
pub struct TickerListItem {
    pub ticker: String,
    pub name: Option<String>,
    pub market: Option<String>,
    pub locale: Option<String>,
    pub primary_exchange: Option<String>,
    pub ticker_type: Option<String>,
    pub active: bool,
    pub currency_name: Option<String>,
    pub cik: Option<String>,
    pub composite_figi: Option<String>,
    pub share_class_figi: Option<String>,
    pub last_updated_utc: Option<String>,
    pub delisted_utc: Option<String>,
}

/// The identity fields of a per-ticker detail response that can patch a
/// listing row.
#[derive(Debug, Clone)]
pub struct DetailIdentity {
    pub name: Option<String>,
    pub market: Option<String>,
    pub locale: Option<String>,
    pub primary_exchange: Option<String>,
    pub ticker_type: Option<String>,
    pub currency_name: Option<String>,
    pub cik: Option<String>,
    pub composite_figi: Option<String>,
    pub share_class_figi: Option<String>,
    pub last_updated_utc: Option<String>,
    pub delisted_utc: Option<String>,
}

/// A row needs enrichment when it lacks the composite FIGI (the engine's
/// identity key), or is inactive without a delisting time (which the
/// eligibility filter needs).
pub open spec fn needs_enrichment_spec(item: TickerListItem) -> bool {
    item.composite_figi is None || (!item.active && item.delisted_utc is None)
}

pub fn needs_enrichment(item: &TickerListItem) -> (r: bool)
    ensures
        r == needs_enrichment_spec(*item),
{
    item.composite_figi.is_none() || (!item.active && item.delisted_utc.is_none())
}

/// Indices of the rows that need enrichment, in order.
pub fn gap_indices(items: &Vec<TickerListItem>) -> (r: Vec<usize>)
    ensures
        forall|k: int| 0 <= k < r@.len() ==> (#[trigger] r@[k]) < items@.len() && needs_enrichment_spec(items@[r@[k] as int]),
        forall|a: int, b: int| 0 <= a < b < r@.len() ==> r@[a] < r@[b],
        forall|i: int| 0 <= i < items@.len() && needs_enrichment_spec(#[trigger] items@[i]) ==> r@.contains(i as usize),
{
    let mut r: Vec<usize> = Vec::new();
    let mut i: usize = 0;
    while i < items.len()
        invariant
            i <= items@.len(),
            forall|k: int| 0 <= k < r@.len() ==> (#[trigger] r@[k]) < i && needs_enrichment_spec(items@[r@[k] as int]),
            forall|a: int, b: int| 0 <= a < b < r@.len() ==> r@[a] < r@[b],
            forall|j: int| 0 <= j < i && needs_enrichment_spec(#[trigger] items@[j]) ==> r@.contains(j as usize),
        decreases items@.len() - i,
    {
        if needs_enrichment(&items[i]) {
            let ghost old_r = r@;
            r.push(i);
            proof {
                assert forall|j: int| 0 <= j < i + 1 && needs_enrichment_spec(#[trigger] items@[j]) implies r@.contains(j as usize) by {
                    if j < i {
                        let k = choose|k: int| 0 <= k < old_r.len() && old_r[k] == j as usize;
                        assert(r@[k] == j as usize);
                    } else {
                        assert(r@[r@.len() - 1] == j as usize);
                    }
                }
            }
        }
        i += 1;
    }
    r
}

/// A missing field of the row takes the detail response's value; present
/// fields stay.
pub open spec fn fill(own: Option<String>, other: Option<String>) -> Option<String> {
    if own is None { other } else { own }
}

/// The engine's identity key of a listing row: its composite FIGI, else its
/// share-class FIGI.
pub fn security_id_of(item: &TickerListItem) -> (r: Option<String>)
    ensures
        r == fill(item.composite_figi, item.share_class_figi),
{
    fill_copy(&item.composite_figi, &item.share_class_figi)
}

/// A listing row as the universe table stores it: the listing fields,
/// the engine's identity key and the two timestamps as UTC nanoseconds.
#[derive(Debug, Clone)]
pub struct UniverseRow {
    pub security_id: Option<String>,
    pub display_symbol: String,
    pub name: Option<String>,
    pub market: Option<String>,
    pub locale: Option<String>,
    pub primary_exchange: Option<String>,
    pub ticker_type: Option<String>,
    pub active: bool,
    pub currency_name: Option<String>,
    pub cik: Option<String>,
    pub composite_figi: Option<String>,
    pub share_class_figi: Option<String>,
    pub last_updated_utc_ns: Option<i64>,
    pub delisted_utc_ns: Option<i64>,
}

/// The universe row of a listing item; a timestamp that is absent or does
/// not parse as RFC 3339 is stored as `None`.
pub fn universe_row(it: &TickerListItem) -> (r: UniverseRow)
    ensures
        r.security_id == fill(it.composite_figi, it.share_class_figi),
        r.display_symbol == it.ticker,
        r.name == it.name,
        r.market == it.market,
        r.locale == it.locale,
        r.primary_exchange == it.primary_exchange,
        r.ticker_type == it.ticker_type,
        r.active == it.active,
        r.currency_name == it.currency_name,
        r.cik == it.cik,
        r.composite_figi == it.composite_figi,
        r.share_class_figi == it.share_class_figi,
        r.last_updated_utc_ns == (match it.last_updated_utc {
            Some(s) => chrono_rfc3339_ns(s@),
            None => None,
        }),
        r.delisted_utc_ns == (match it.delisted_utc {
            Some(s) => chrono_rfc3339_ns(s@),
            None => None,
        }),
{
    UniverseRow {
        security_id: security_id_of(it),
        display_symbol: it.ticker.clone(),
        name: clone_opt(&it.name),
        market: clone_opt(&it.market),
        locale: clone_opt(&it.locale),
        primary_exchange: clone_opt(&it.primary_exchange),
        ticker_type: clone_opt(&it.ticker_type),
        active: it.active,
        currency_name: clone_opt(&it.currency_name),
        cik: clone_opt(&it.cik),
        composite_figi: clone_opt(&it.composite_figi),
        share_class_figi: clone_opt(&it.share_class_figi),
        last_updated_utc_ns: parse_ts(&it.last_updated_utc),
        delisted_utc_ns: parse_ts(&it.delisted_utc),
    }
}

// ---------------------------------------------------------------------------
// Retry schedule
// ---------------------------------------------------------------------------

/// Knobs of the per-ticker fan-out.
#[derive(Debug, Clone, Copy)]
pub struct EnrichConfig {
    /// Maximum simultaneous in-flight requests.
    pub concurrency: usize,
    /// Attempts per ticker before the row is left as it is.
    pub max_attempts: u32,
    /// Initial backoff; each attempt doubles it.
    pub base_backoff_ms: u64,
    /// Ceiling on the backoff.
    pub max_backoff_ms: u64,
}

impl Default for EnrichConfig {
    fn default() -> (r: Self)
        ensures
            r.concurrency == 10,
            r.max_attempts == 5,
            r.base_backoff_ms == 200,
            r.max_backoff_ms == 30_000,
    {
        EnrichConfig { concurrency: 10, max_attempts: 5, base_backoff_ms: 200, max_backoff_ms: 30_000 }
    }
}

/// Backoff before attempt `attempt + 1`: the base doubled `attempt` times
/// (saturating at `u64::MAX`), capped at the ceiling.
pub open spec fn backoff_ms(c: EnrichConfig, attempt: nat) -> int {
    let doubled = c.base_backoff_ms * pow2(attempt);
    let saturated = if doubled > u64::MAX { u64::MAX as int } else { doubled };
    if saturated < c.max_backoff_ms { saturated } else { c.max_backoff_ms as int }
}

/// `fastrand::u64(0..=hi)`: a random value from `0` to `hi` inclusive (the
/// range is never empty).
#[verifier::external_body]
pub(crate) fn random_up_to(hi: u64) -> (r: u64)
    ensures
        r <= hi,
{
    fastrand::u64(0..=hi)
}

/// Delay before the next attempt once `attempt` attempts have failed: the
/// backoff plus a random jitter of at most half of it plus one.
pub fn retry_delay_ms(c: &EnrichConfig, attempt: u32) -> (r: u64)
    requires
        attempt < 64,
        backoff_ms(*c, attempt as nat) + backoff_ms(*c, attempt as nat) / 2 + 1 <= u64::MAX,
    ensures
        backoff_ms(*c, attempt as nat) <= r <= backoff_ms(*c, attempt as nat) + backoff_ms(*c, attempt as nat) / 2 + 1,
{
    let shift = attempt as u64;
    proof {
        vstd::bits::lemma_u64_pow2_no_overflow(shift as nat);
        vstd::bits::lemma_u64_shl_is_mul(1, shift);
    }
    let p: u64 = 1u64 << shift;
    let doubled: u64 = match c.base_backoff_ms.checked_mul(p) {
        Some(v) => v,
        None => u64::MAX,
    };
    let exp: u64 = if doubled < c.max_backoff_ms { doubled } else { c.max_backoff_ms };
    assert(exp == backoff_ms(*c, attempt as nat));
    let jitter = random_up_to(exp / 2 + 1);
    exp + jitter
}

/// What to do after a failed attempt.
pub enum RetryStep {
    /// Give up on this ticker; the failure is final.
    GiveUp,
    /// Wait this many milliseconds, then try again.
    RetryAfterMs(u64),
}

/// After the `attempt`-th consecutive failure `e` (counting from 1): give up
/// once the attempts are used or the failure is not retryable, else wait.
pub fn after_failure(c: &EnrichConfig, attempt: u32, e: &RestError) -> (r: RetryStep)
    requires
        attempt >= 1,
        attempt < c.max_attempts && retryable(*e) ==> {
            &&& attempt < 64
            &&& backoff_ms(*c, attempt as nat) + backoff_ms(*c, attempt as nat) / 2 + 1 <= u64::MAX
        },
    ensures
        (attempt >= c.max_attempts || !retryable(*e)) <==> r is GiveUp,
        r matches RetryStep::RetryAfterMs(ms) ==> backoff_ms(*c, attempt as nat) <= ms <= backoff_ms(*c, attempt as nat) + backoff_ms(*c, attempt as nat) / 2 + 1,
{
    if attempt >= c.max_attempts || !is_retryable(e) {
        RetryStep::GiveUp
    } else {
        RetryStep::RetryAfterMs(retry_delay_ms(c, attempt))
    }
}

// ---------------------------------------------------------------------------
// Failure tallies
// ---------------------------------------------------------------------------

/// How a final failure is tallied.
#[derive(Debug, Clone, Copy, PartialEq, Eq, Structural)]
pub enum FailureKind {
    NotFound,
    RateLimited,
    ServerError,
    Other,
}

/// 404 (ticker not carried), 429 (over the rate budget), 5xx (server side),
/// anything else.
pub open spec fn failure_kind(e: RestError) -> FailureKind {
    match e {
        RestError::Status { status, .. } => if status == 404 {
            FailureKind::NotFound
        } else if status == 429 {
            FailureKind::RateLimited
        } else if status >= 500 {
            FailureKind::ServerError
        } else {
            FailureKind::Other
        },
        _ => FailureKind::Other,
    }
}

pub fn classify_failure(e: &RestError) -> (r: FailureKind)
    ensures
        r == failure_kind(*e),
{
    match e {
        RestError::Status { status, .. } => if *status == 404 {
            FailureKind::NotFound
        } else if *status == 429 {
            FailureKind::RateLimited
        } else if *status >= 500 {
            FailureKind::ServerError
        } else {
            FailureKind::Other
        },
        _ => FailureKind::Other,
    }
}

/// Counts of the enrichment pass.
#[derive(Debug, Clone, Copy, Default)]
pub struct EnrichStats {
    /// Rows that needed a per-ticker call.
    pub gap: usize,
    /// Calls that succeeded (the row was patched).
    pub ok: usize,
    /// Calls that failed for good (the row was left as it is).
    pub err: usize,
    pub err_404: usize,
    pub err_429: usize,
    pub err_5xx: usize,
    pub err_other: usize,
}

/// Counts of the ticker-events fan-out.
#[derive(Debug, Clone, Copy, Default)]
pub struct TickerEventsStats {
    pub queried: usize,
    pub ok: usize,
    pub ok_with_events: usize,
    pub err: usize,
    pub err_404: usize,
    pub err_429: usize,
    pub err_5xx: usize,
    pub err_other: usize,
}

/// The four failure subcounts after tallying one more failure of `kind`.
pub open spec fn tallied(counts: (usize, usize, usize, usize), kind: FailureKind) -> (int, int, int, int) {
    match kind {
        FailureKind::NotFound => (counts.0 + 1, counts.1 as int, counts.2 as int, counts.3 as int),
        FailureKind::RateLimited => (counts.0 as int, counts.1 + 1, counts.2 as int, counts.3 as int),
        FailureKind::ServerError => (counts.0 as int, counts.1 as int, counts.2 + 1, counts.3 as int),
        FailureKind::Other => (counts.0 as int, counts.1 as int, counts.2 as int, counts.3 + 1),
    }
}

impl EnrichStats {
    pub open spec fn failure_counts(self) -> (usize, usize, usize, usize) {
        (self.err_404, self.err_429, self.err_5xx, self.err_other)
    }

    pub fn new(gap: usize) -> (r: Self)
        ensures
            r.gap == gap,
            r.ok == 0,
            r.err == 0,
            r.failure_counts() == (0usize, 0usize, 0usize, 0usize),
    {
        EnrichStats { gap, ok: 0, err: 0, err_404: 0, err_429: 0, err_5xx: 0, err_other: 0 }
    }

    pub fn record_ok(&mut self)
        requires
            old(self).ok < usize::MAX,
        ensures
            final(self).ok == old(self).ok + 1,
            final(self).gap == old(self).gap,
            final(self).err == old(self).err,
            final(self).failure_counts() == old(self).failure_counts(),
    {
        self.ok = self.ok + 1;
    }

    pub fn record_failure(&mut self, e: &RestError)
        requires
            old(self).err < usize::MAX,
            old(self).err_404 < usize::MAX,
            old(self).err_429 < usize::MAX,
            old(self).err_5xx < usize::MAX,
            old(self).err_other < usize::MAX,
        ensures
            final(self).err == old(self).err + 1,
            final(self).gap == old(self).gap,
            final(self).ok == old(self).ok,
            ({
                let c = final(self).failure_counts();
                (c.0 as int, c.1 as int, c.2 as int, c.3 as int)
            }) == tallied(old(self).failure_counts(), failure_kind(*e)),
    {
        self.err = self.err + 1;
        match classify_failure(e) {
            FailureKind::NotFound => self.err_404 = self.err_404 + 1,
            FailureKind::RateLimited => self.err_429 = self.err_429 + 1,
            FailureKind::ServerError => self.err_5xx = self.err_5xx + 1,
            FailureKind::Other => self.err_other = self.err_other + 1,
        }
    }
}

impl TickerEventsStats {
    pub open spec fn failure_counts(self) -> (usize, usize, usize, usize) {
        (self.err_404, self.err_429, self.err_5xx, self.err_other)
    }

    pub fn new(queried: usize) -> (r: Self)
        ensures
            r.queried == queried,
            r.ok == 0,
            r.ok_with_events == 0,
            r.err == 0,
            r.failure_counts() == (0usize, 0usize, 0usize, 0usize),
    {
        TickerEventsStats { queried, ok: 0, ok_with_events: 0, err: 0, err_404: 0, err_429: 0, err_5xx: 0, err_other: 0 }
    }

    /// Tallies a successful call that returned `n_events` rename events.
    pub fn record_ok(&mut self, n_events: usize)
        requires
            old(self).ok < usize::MAX,
            old(self).ok_with_events < usize::MAX,
        ensures
            final(self).ok == old(self).ok + 1,
            final(self).ok_with_events == old(self).ok_with_events + (if n_events > 0 { 1int } else { 0int }),
            final(self).queried == old(self).queried,
            final(self).err == old(self).err,
            final(self).failure_counts() == old(self).failure_counts(),
    {
        self.ok = self.ok + 1;
        if n_events > 0 {
            self.ok_with_events = self.ok_with_events + 1;
        }
    }

    pub fn record_failure(&mut self, e: &RestError)
        requires
            old(self).err < usize::MAX,
            old(self).err_404 < usize::MAX,
            old(self).err_429 < usize::MAX,
            old(self).err_5xx < usize::MAX,
            old(self).err_other < usize::MAX,
        ensures
            final(self).err == old(self).err + 1,
            final(self).queried == old(self).queried,
            final(self).ok == old(self).ok,
            final(self).ok_with_events == old(self).ok_with_events,
            ({
                let c = final(self).failure_counts();
                (c.0 as int, c.1 as int, c.2 as int, c.3 as int)
            }) == tallied(old(self).failure_counts(), failure_kind(*e)),
    {
        self.err = self.err + 1;
        match classify_failure(e) {
            FailureKind::NotFound => self.err_404 = self.err_404 + 1,
            FailureKind::RateLimited => self.err_429 = self.err_429 + 1,
            FailureKind::ServerError => self.err_5xx = self.err_5xx + 1,
            FailureKind::Other => self.err_other = self.err_other + 1,
        }
    }
}

// ---------------------------------------------------------------------------
// Pagination
// ---------------------------------------------------------------------------

/// What a listing does after a page.
pub enum PageStep {
    /// Fetch the next page from this URL.
    Next(String),
    /// The listing is complete.
    Done,
}

/// A listing continues while the page names a non-empty next URL.
pub fn after_page(next_url: Option<String>) -> (r: PageStep)
    ensures
        match next_url {
            Some(u) => if u@.len() > 0 { r matches PageStep::Next(n) && n == u } else { r is Done },
            None => r is Done,
        },
{
    match next_url {
        Some(u) => if !u.as_str().is_empty() { PageStep::Next(u) } else { PageStep::Done },
        None => PageStep::Done,
    }
}

/// Before fetching page `page` (counting from 0) of a listing capped at
/// `cap` pages: the overflow error once the cap is reached.
pub fn check_page_cap(page: usize, cap: usize) -> (r: Result<(), RestError>)
    ensures
        r is Ok <==> page < cap,
        r matches Err(RestError::PaginationOverflow { cap: c }) ==> c == cap,
        r is Err ==> r->Err_0 is PaginationOverflow,
{
    if page >= cap {
        Err(RestError::PaginationOverflow { cap })
    } else {
        Ok(())
    }
}

// ---------------------------------------------------------------------------
// Ticker events
// ---------------------------------------------------------------------------

/// One rename: `new_ticker` is the symbol that emerged on `date`.
#[derive(Debug, Clone)]
pub struct TickerEvent {
    pub date: String,
    pub event_type: String,
    pub new_ticker: String,
}

/// One ticker's events response. `events` may be empty (no renames).
#[derive(Debug, Clone)]
pub struct TickerEventsResult {
    pub queried_id: String,
    pub name: Option<String>,
    pub events: Vec<TickerEvent>,
}

/// An event as the endpoint returns it; only ticker changes carry a new
/// ticker.
#[derive(Debug, Clone)]
pub struct RawTickerEvent {
    pub date: String,
    pub event_type: String,
    pub ticker_change: Option<String>,
}

pub open spec fn rename_of(e: RawTickerEvent) -> TickerEvent {
    TickerEvent { date: e.date, event_type: e.event_type, new_ticker: e.ticker_change->0 }
}

/// The renames among the raw events, in order: the events that carry a
/// ticker change.
pub open spec fn renames(raw: Seq<RawTickerEvent>) -> Seq<TickerEvent>
    decreases raw.len(),
{
    if raw.len() == 0 {
        Seq::empty()
    } else {
        let rest = renames(raw.drop_last());
        if raw.last().ticker_change is Some { rest.push(rename_of(raw.last())) } else { rest }
    }
}

pub fn renames_of(raw: &Vec<RawTickerEvent>) -> (r: Vec<TickerEvent>)
    ensures
        r@ == renames(raw@),
{
    let mut out: Vec<TickerEvent> = Vec::new();
    let mut i: usize = 0;
    while i < raw.len()
        invariant
            i <= raw@.len(),
            out@ == renames(raw@.take(i as int)),
        decreases raw@.len() - i,
    {
        assert(raw@.take(i as int + 1).drop_last() =~= raw@.take(i as int));
        let e = &raw[i];
        match &e.ticker_change {
            Some(t) => {
                out.push(TickerEvent { date: e.date.clone(), event_type: e.event_type.clone(), new_ticker: t.clone() });
            },
            None => {},
        }
        i += 1;
    }
    assert(raw@.take(raw@.len() as int) =~= raw@);
    out
}


// ---------------------------------------------------------------------------
// Applying the outcomes of an enrichment pass
// ---------------------------------------------------------------------------

/// The row patched from a detail response.
pub open spec fn merged(item: TickerListItem, d: DetailIdentity) -> TickerListItem {
    TickerListItem {
        ticker: item.ticker,
        name: fill(item.name, d.name),
        market: fill(item.market, d.market),
        locale: fill(item.locale, d.locale),
        primary_exchange: fill(item.primary_exchange, d.primary_exchange),
        ticker_type: fill(item.ticker_type, d.ticker_type),
        active: item.active,
        currency_name: fill(item.currency_name, d.currency_name),
        cik: fill(item.cik, d.cik),
        composite_figi: fill(item.composite_figi, d.composite_figi),
        share_class_figi: fill(item.share_class_figi, d.share_class_figi),
        last_updated_utc: fill(item.last_updated_utc, d.last_updated_utc),
        delisted_utc: fill(item.delisted_utc, d.delisted_utc),
    }
}

/// The rows after applying the outcomes in order: a response patches its
/// row, a failure leaves it as it is.
pub open spec fn applied(items: Seq<TickerListItem>, outcomes: Seq<(usize, Result<DetailIdentity, RestError>)>) -> Seq<TickerListItem>
    decreases outcomes.len(),
{
    if outcomes.len() == 0 {
        items
    } else {
        let prev = applied(items, outcomes.drop_last());
        let i = outcomes.last().0 as int;
        match outcomes.last().1 {
            Ok(d) => if i < prev.len() { prev.update(i, merged(prev[i], d)) } else { prev },
            Err(_) => prev,
        }
    }
}

/// Responses among the outcomes.
pub open spec fn ok_count(outcomes: Seq<(usize, Result<DetailIdentity, RestError>)>) -> int
    decreases outcomes.len(),
{
    if outcomes.len() == 0 {
        0
    } else {
        ok_count(outcomes.drop_last()) + if outcomes.last().1 is Ok { 1int } else { 0int }
    }
}

/// Failure subcounts `(404, 429, 5xx, other)` of the outcomes.
pub open spec fn failure_tally(outcomes: Seq<(usize, Result<DetailIdentity, RestError>)>) -> (int, int, int, int)
    decreases outcomes.len(),
{
    if outcomes.len() == 0 {
        (0, 0, 0, 0)
    } else {
        let t = failure_tally(outcomes.drop_last());
        match outcomes.last().1 {
            Ok(_) => t,
            Err(e) => match failure_kind(e) {
                FailureKind::NotFound => (t.0 + 1, t.1, t.2, t.3),
                FailureKind::RateLimited => (t.0, t.1 + 1, t.2, t.3),
                FailureKind::ServerError => (t.0, t.1, t.2 + 1, t.3),
                FailureKind::Other => (t.0, t.1, t.2, t.3 + 1),
            },
        }
    }
}

proof fn lemma_tally_bounds(outcomes: Seq<(usize, Result<DetailIdentity, RestError>)>)
    ensures
        0 <= ok_count(outcomes),
        0 <= failure_tally(outcomes).0 && 0 <= failure_tally(outcomes).1,
        0 <= failure_tally(outcomes).2 && 0 <= failure_tally(outcomes).3,
        ok_count(outcomes) + failure_tally(outcomes).0 + failure_tally(outcomes).1 + failure_tally(outcomes).2
            + failure_tally(outcomes).3 == outcomes.len(),
    decreases outcomes.len(),
{
    if outcomes.len() > 0 {
        lemma_tally_bounds(outcomes.drop_last());
    }
}

fn clone_opt(o: &Option<String>) -> (r: Option<String>)
    ensures
        r == *o,
{
    match o {
        Some(s) => Some(s.clone()),
        None => None,
    }
}

fn fill_copy(own: &Option<String>, other: &Option<String>) -> (r: Option<String>)
    ensures
        r == fill(*own, *other),
{
    if own.is_none() { clone_opt(other) } else { clone_opt(own) }
}

/// A copy of the row patched from a detail response.
fn merged_copy(item: &TickerListItem, d: &DetailIdentity) -> (r: TickerListItem)
    ensures
        r == merged(*item, *d),
{
    TickerListItem {
        ticker: item.ticker.clone(),
        name: fill_copy(&item.name, &d.name),
        market: fill_copy(&item.market, &d.market),
        locale: fill_copy(&item.locale, &d.locale),
        primary_exchange: fill_copy(&item.primary_exchange, &d.primary_exchange),
        ticker_type: fill_copy(&item.ticker_type, &d.ticker_type),
        active: item.active,
        currency_name: fill_copy(&item.currency_name, &d.currency_name),
        cik: fill_copy(&item.cik, &d.cik),
        composite_figi: fill_copy(&item.composite_figi, &d.composite_figi),
        share_class_figi: fill_copy(&item.share_class_figi, &d.share_class_figi),
        last_updated_utc: fill_copy(&item.last_updated_utc, &d.last_updated_utc),
        delisted_utc: fill_copy(&item.delisted_utc, &d.delisted_utc),
    }
}

/// Number of rows that need enrichment.
pub open spec fn gap_count(items: Seq<TickerListItem>) -> nat
    decreases items.len(),
{
    if items.len() == 0 {
        0
    } else {
        gap_count(items.drop_last()) + if needs_enrichment_spec(items.last()) { 1nat } else { 0nat }
    }
}

proof fn lemma_gap_count_bounded(items: Seq<TickerListItem>)
    ensures
        gap_count(items) <= items.len(),
    decreases items.len(),
{
    if items.len() > 0 {
        lemma_gap_count_bounded(items.drop_last());
    }
}

/// Number of rows of `items` that need enrichment.
pub fn count_gap(items: &Vec<TickerListItem>) -> (r: usize)
    ensures
        r == gap_count(items@),
{
    let mut n: usize = 0;
    let mut i: usize = 0;
    assert(items@.take(0) =~= Seq::<TickerListItem>::empty());
    while i < items.len()
        invariant
            i <= items@.len(),
            n == gap_count(items@.take(i as int)),
        decreases items@.len() - i,
    {
        assert(items@.take(i as int + 1).drop_last() =~= items@.take(i as int));
        proof { lemma_gap_count_bounded(items@.take(i as int)); }
        if needs_enrichment(&items[i]) {
            n += 1;
        }
        i += 1;
    }
    assert(items@.take(items@.len() as int) =~= items@);
    n
}

/// Applies the outcomes of an enrichment pass: each response patches its
/// row's missing fields, each failure leaves its row as it is and is
/// tallied by kind; `gap` counts the rows that needed a call.
pub fn apply_enrichment(items: &mut Vec<TickerListItem>, outcomes: &Vec<(usize, Result<DetailIdentity, RestError>)>) -> (stats: EnrichStats)
    ensures
        final(items)@ == applied(old(items)@, outcomes@),
        stats.gap == gap_count(old(items)@),
        stats.ok == ok_count(outcomes@),
        stats.err == outcomes@.len() - ok_count(outcomes@),
        (stats.err_404 as int, stats.err_429 as int, stats.err_5xx as int, stats.err_other as int) == failure_tally(outcomes@),
{
    let gap = count_gap(items);
    let mut stats = EnrichStats::new(gap);
    let mut k: usize = 0;
    let ghost start = items@;
    while k < outcomes.len()
        invariant
            k <= outcomes@.len(),
            items@ == applied(start, outcomes@.take(k as int)),
            stats.gap == gap,
            stats.ok == ok_count(outcomes@.take(k as int)),
            stats.err == k - ok_count(outcomes@.take(k as int)),
            (stats.err_404 as int, stats.err_429 as int, stats.err_5xx as int, stats.err_other as int)
                == failure_tally(outcomes@.take(k as int)),
        decreases outcomes@.len() - k,
    {
        let ghost pre = outcomes@.take(k as int);
        let ghost nxt = outcomes@.take(k as int + 1);
        proof {
            assert(nxt.drop_last() =~= pre);
            assert(nxt.last() == outcomes@[k as int]);
            lemma_tally_bounds(pre);
        }
        let i = outcomes[k].0;
        match &outcomes[k].1 {
            Ok(d) => {
                if i < items.len() {
                    let patched = merged_copy(&items[i], d);
                    items.set(i, patched);
                }
                stats.record_ok();
            },
            Err(e) => {
                stats.record_failure(e);
            },
        }
        k += 1;
    }
    proof {
        assert(outcomes@.take(outcomes@.len() as int) =~= outcomes@);
    }
    stats
}

/// Which rows get a per-ticker call: every row without a composite FIGI;
/// an inactive row without a delisting time; and no active row that has a
/// composite FIGI, nor an inactive one that has both.
pub proof fn law_rows_needing_a_call(item: TickerListItem)
    ensures
        item.composite_figi is None ==> needs_enrichment_spec(item),
        !item.active && item.delisted_utc is None ==> needs_enrichment_spec(item),
        item.active && item.composite_figi is Some ==> !needs_enrichment_spec(item),
        !item.active && item.composite_figi is Some && item.delisted_utc is Some ==> !needs_enrichment_spec(item),
{
}

/// A field after a response: the row's own value when present, the
/// response's value when the row's is missing.
pub open spec fn patched_field(after: Option<String>, own: Option<String>, resp: Option<String>) -> bool {
    &&& (own is Some ==> after == own)
    &&& (own is None ==> after == resp)
}

/// One more response for row `i` patches that row and nothing else: its
/// ticker and active flag stay, every other field keeps the row's value
/// when present and takes the response's value when missing; the other
/// rows and the row count are unchanged. A failure changes nothing.
pub proof fn law_response_fills_only_missing_fields(
    items: Seq<TickerListItem>,
    outcomes: Seq<(usize, Result<DetailIdentity, RestError>)>,
    i: usize,
    d: DetailIdentity,
    e: RestError,
)
    requires
        (i as int) < items.len(),
    ensures
        ({
            let before = applied(items, outcomes);
            let after = applied(items, outcomes.push((i, Ok(d))));
            let (p, q) = (before[i as int], after[i as int]);
            &&& after.len() == before.len() == items.len()
            &&& forall|k: int| 0 <= k < after.len() && k != i ==> after[k] == before[k]
            &&& q.ticker == p.ticker
            &&& q.active == p.active
            &&& patched_field(q.name, p.name, d.name)
            &&& patched_field(q.market, p.market, d.market)
            &&& patched_field(q.locale, p.locale, d.locale)
            &&& patched_field(q.primary_exchange, p.primary_exchange, d.primary_exchange)
            &&& patched_field(q.ticker_type, p.ticker_type, d.ticker_type)
            &&& patched_field(q.currency_name, p.currency_name, d.currency_name)
            &&& patched_field(q.cik, p.cik, d.cik)
            &&& patched_field(q.composite_figi, p.composite_figi, d.composite_figi)
            &&& patched_field(q.share_class_figi, p.share_class_figi, d.share_class_figi)
            &&& patched_field(q.last_updated_utc, p.last_updated_utc, d.last_updated_utc)
            &&& patched_field(q.delisted_utc, p.delisted_utc, d.delisted_utc)
        }),
        applied(items, outcomes.push((i, Err(e)))) == applied(items, outcomes),
{
    lemma_applied_len(items, outcomes);
    let o1 = outcomes.push((i, Ok(d)));
    assert(o1.drop_last() =~= outcomes);
    let o2 = outcomes.push((i, Err(e)));
    assert(o2.drop_last() =~= outcomes);
}

/// Rows without a response among the outcomes come out of the pass as they
/// went in: rows outside the gap, and rows whose calls failed for good.
pub proof fn law_rows_without_response_are_untouched(
    items: Seq<TickerListItem>,
    outcomes: Seq<(usize, Result<DetailIdentity, RestError>)>,
    i: int,
)
    requires
        0 <= i < items.len(),
        forall|k: int| 0 <= k < outcomes.len() && (#[trigger] outcomes[k]).0 == i ==> outcomes[k].1 is Err,
    ensures
        applied(items, outcomes).len() == items.len(),
        applied(items, outcomes)[i] == items[i],
    decreases outcomes.len(),
{
    if outcomes.len() > 0 {
        let pre = outcomes.drop_last();
        assert forall|k: int| 0 <= k < pre.len() && (#[trigger] pre[k]).0 == i implies pre[k].1 is Err by {
            assert(pre[k] == outcomes[k]);
        }
        law_rows_without_response_are_untouched(items, pre, i);
        assert(outcomes.last() == outcomes[outcomes.len() - 1]);
    }
}

/// A row with one response among the outcomes is that response's patch of
/// the row.
pub proof fn law_single_response_patches_its_row(
    items: Seq<TickerListItem>,
    outcomes: Seq<(usize, Result<DetailIdentity, RestError>)>,
    k: int,
    d: DetailIdentity,
)
    requires
        0 <= k < outcomes.len(),
        outcomes[k].0 < items.len(),
        outcomes[k].1 == Ok::<DetailIdentity, RestError>(d),
        forall|j: int| 0 <= j < outcomes.len() && j != k && (#[trigger] outcomes[j]).0 == outcomes[k].0 ==> outcomes[j].1 is Err,
    ensures
        applied(items, outcomes)[outcomes[k].0 as int] == merged(items[outcomes[k].0 as int], d),
    decreases outcomes.len(),
{
    let i = outcomes[k].0 as int;
    let pre = outcomes.drop_last();
    if k == outcomes.len() - 1 {
        assert forall|j: int| 0 <= j < pre.len() && (#[trigger] pre[j]).0 == i implies pre[j].1 is Err by {
            assert(pre[j] == outcomes[j]);
        }
        law_rows_without_response_are_untouched(items, pre, i);
    } else {
        assert(pre[k] == outcomes[k]);
        assert forall|j: int| 0 <= j < pre.len() && j != k && (#[trigger] pre[j]).0 == pre[k].0 implies pre[j].1 is Err by {
            assert(pre[j] == outcomes[j]);
        }
        law_single_response_patches_its_row(items, pre, k, d);
        lemma_applied_len(items, pre);
        assert(outcomes.last() == outcomes[outcomes.len() - 1]);
    }
}

proof fn lemma_applied_len(items: Seq<TickerListItem>, outcomes: Seq<(usize, Result<DetailIdentity, RestError>)>)
    ensures
        applied(items, outcomes).len() == items.len(),
    decreases outcomes.len(),
{
    if outcomes.len() > 0 {
        lemma_applied_len(items, outcomes.drop_last());
    }
}

// ---------------------------------------------------------------------------
// Laws
// ---------------------------------------------------------------------------

/// Patching never overwrites a present field, and patching twice with the
/// same response changes nothing more.
pub proof fn law_fill_keeps_present_and_is_idempotent(own: Option<String>, other: Option<String>)
    ensures
        own is Some ==> fill(own, other) == own,
        fill(fill(own, other), other) == fill(own, other),
{
}

/// A row patched from a response that carries the composite FIGI (and,
/// for an inactive row, a delisting time) no longer needs enrichment.
pub proof fn law_patched_row_needs_no_enrichment(before: TickerListItem, d: DetailIdentity)
    requires
        d.composite_figi is Some,
        before.active || d.delisted_utc is Some,
    ensures
        !needs_enrichment_spec(merged(before, d)),
{
}

/// The backoff never decreases from one attempt to the next, and never
/// exceeds the ceiling.
pub proof fn law_backoff_grows_up_to_the_ceiling(c: EnrichConfig, a1: nat, a2: nat)
    requires
        a1 <= a2,
    ensures
        backoff_ms(c, a1) <= backoff_ms(c, a2),
        backoff_ms(c, a2) <= c.max_backoff_ms,
{
    if a1 < a2 {
        vstd::arithmetic::power2::lemma_pow2_strictly_increases(a1, a2);
    }
    let p1 = pow2(a1);
    let p2 = pow2(a2);
    assert(c.base_backoff_ms * p1 <= c.base_backoff_ms * p2) by (nonlinear_arith)
        requires
            p1 <= p2;
}

/// Tallying a failure keeps the failure count equal to the sum of its
/// subcounts.
pub proof fn law_failure_subcounts_sum_to_failures(err: int, before: (usize, usize, usize, usize), kind: FailureKind)
    requires
        err == before.0 + before.1 + before.2 + before.3,
    ensures
        ({
            let after = tallied(before, kind);
            err + 1 == after.0 + after.1 + after.2 + after.3
        }),
{
}

} // verus!
