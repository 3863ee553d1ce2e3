//! `earnings_calendar` derivation from SEC filings already on disk, and the
//! sweep's earnings-proximity lookup.
//!
//! - `earnings_date`: the ET date on which a fiscal period's results became
//!   public — the earliest acceptance instant among the period's filings
//!   (original and amendments), falling back to `filing_date` when no
//!   filing has an acceptance instant, own or backfilled from EDGAR.
//! - `report_timing`: ET wall clock of that instant — `before_open`
//!   (before 09:30), `during_market` (before 16:00), `after_close`, or
//!   `unknown` for the filing-date fallback.
//! - `earnings_window`: fiscal period label; `revision_count`: filings of the
//!   period beyond the first; `source`: `acceptance`, `edgar_backfill` or
//!   `filing_date`.
//! - One event per (security, earnings date): a 10-K announcing Q4 and FY
//!   on one day keeps the quarterly label and the larger revision count.

use vstd::prelude::*;
use crate::dates::{et_clock, ny_wall_clock};
use crate::lexsort::{distinct_keys, enc_text, is_index_perm, lex_lt, lemma_enc_text_prefix, lemma_lex_between_shares_prefix, lemma_lex_common_prefix, lemma_lex_enc_text, lemma_lex_irreflexive, push_text, sort_by_keys, sorted_by_keys};
use crate::text::{chars_eq, chars_of, decimal, decimal_chars, seq_lt, str_eq, string_of};

verus! {

/// One SEC filing row, as far as the calendar derivation reads it.
#[derive(Debug, Clone)]
pub struct FilingLite {
    pub security_id: Option<String>,
    pub ticker: String,
    /// Day number of the filing date.
    pub filing_date: i32,
    pub acceptance_datetime_ns: Option<i64>,
    pub accession_number: Option<String>,
    pub timeframe: Option<String>,
    pub fiscal_period: Option<String>,
    pub fiscal_year: Option<String>,
}

/// One row of `earnings_calendar`.
#[derive(Debug, Clone)]
pub struct EarningsEvent {
    pub security_id: String,
    /// Day number.
    pub earnings_date: i32,
    pub report_timing: String,
    /// Day number.
    pub announced_at_date: i32,
    pub earnings_window: String,
    pub revision_count: i32,
    pub source: String,
}

// ---------------------------------------------------------------------------
// Per-filing announcement candidate
// ---------------------------------------------------------------------------

/// Quarterly and annual reports announce results; TTM rows are aggregates.
pub open spec fn is_report(f: FilingLite) -> bool {
    f.timeframe matches Some(t) && (t@ == "quarterly"@ || t@ == "annual"@)
}

/// Security key of a filing: its security id, else its ticker.
pub open spec fn filing_sid(f: FilingLite) -> Seq<char> {
    match f.security_id {
        Some(s) => s@,
        None => f.ticker@,
    }
}

/// Fiscal identity of filing `i`: `"{year}-{period}"`, or `"row-{i}"` when
/// either part is missing (such a row is a period of its own).
pub open spec fn period_key(f: FilingLite, i: int) -> Seq<char> {
    match (f.fiscal_year, f.fiscal_period) {
        (Some(y), Some(p)) => y@ + "-"@ + p@,
        _ => "row-"@ + decimal(i as nat),
    }
}

/// The first backfill entry for an accession number.
pub open spec fn backfill_lookup(bf: Seq<(String, i64)>, acc: Seq<char>) -> Option<i64>
    decreases bf.len(),
{
    if bf.len() == 0 {
        None
    } else if bf[0].0@ == acc {
        Some(bf[0].1)
    } else {
        backfill_lookup(bf.drop_first(), acc)
    }
}

/// Acceptance instant of a filing: its own, else the EDGAR backfill's.
pub open spec fn candidate_ns(f: FilingLite, bf: Seq<(String, i64)>) -> Option<i64> {
    match f.acceptance_datetime_ns {
        Some(ns) => Some(ns),
        None => match f.accession_number {
            Some(a) => backfill_lookup(bf, a@),
            None => None,
        },
    }
}

pub open spec fn candidate_source(f: FilingLite, bf: Seq<(String, i64)>) -> Seq<char> {
    if f.acceptance_datetime_ns is Some {
        "acceptance"@
    } else if candidate_ns(f, bf) is Some {
        "edgar_backfill"@
    } else {
        "filing_date"@
    }
}

/// ET report timing for a wall-clock second of day.
pub open spec fn timing_label(second_of_day: u32) -> Seq<char> {
    let minutes = second_of_day / 60;
    if minutes < 9 * 60 + 30 {
        "before_open"@
    } else if minutes < 16 * 60 {
        "during_market"@
    } else {
        "after_close"@
    }
}

pub open spec fn candidate_date(f: FilingLite, bf: Seq<(String, i64)>) -> i32 {
    match candidate_ns(f, bf) {
        Some(ns) => ny_wall_clock(ns).0,
        None => f.filing_date,
    }
}

pub open spec fn candidate_timing(f: FilingLite, bf: Seq<(String, i64)>) -> Seq<char> {
    match candidate_ns(f, bf) {
        Some(ns) => timing_label(ny_wall_clock(ns).1),
        None => "unknown"@,
    }
}

pub open spec fn candidate_window(f: FilingLite) -> Seq<char> {
    match f.fiscal_period {
        Some(p) => p@,
        None => "unknown"@,
    }
}

/// Looks an accession number up in the backfill (first entry wins).
fn lookup_backfill(bf: &Vec<(String, i64)>, acc: &str) -> (r: Option<i64>)
    ensures
        r == backfill_lookup(bf@, acc@),
{
    let mut i: usize = 0;
    assert(bf@.skip(0) =~= bf@);
    while i < bf.len()
        invariant
            i <= bf@.len(),
            backfill_lookup(bf@, acc@) == backfill_lookup(bf@.skip(i as int), acc@),
        decreases bf@.len() - i,
    {
        assert(bf@.skip(i as int)[0] == bf@[i as int]);
        if str_eq(bf[i].0.as_str(), acc) {
            return Some(bf[i].1);
        }
        assert(bf@.skip(i as int).drop_first() =~= bf@.skip(i as int + 1));
        i += 1;
    }
    None
}

fn timing_of_second(second_of_day: u32) -> (r: &'static str)
    ensures
        r@ == timing_label(second_of_day),
{
    let minutes = second_of_day / 60;
    if minutes < 9 * 60 + 30 {
        "before_open"
    } else if minutes < 16 * 60 {
        "during_market"
    } else {
        "after_close"
    }
}

/// Announcement candidate of one report filing.
struct Cand {
    sid: Vec<char>,
    key: Vec<char>,
    date: i32,
    ns: Option<i64>,
    timing: &'static str,
    source: &'static str,
    window: Vec<char>,
}

spec fn cand_matches(c: Cand, f: FilingLite, bf: Seq<(String, i64)>, i: int) -> bool {
    &&& c.sid@ == filing_sid(f)
    &&& c.key@ == period_key(f, i)
    &&& c.date == candidate_date(f, bf)
    &&& c.ns == candidate_ns(f, bf)
    &&& c.timing@ == candidate_timing(f, bf)
    &&& c.source@ == candidate_source(f, bf)
    &&& c.window@ == candidate_window(f)
}

fn report_flag(f: &FilingLite) -> (r: bool)
    ensures
        r == is_report(*f),
{
    match &f.timeframe {
        Some(t) => str_eq(t.as_str(), "quarterly") || str_eq(t.as_str(), "annual"),
        None => false,
    }
}

fn candidate(f: &FilingLite, bf: &Vec<(String, i64)>, i: usize) -> (c: Cand)
    ensures
        cand_matches(c, *f, bf@, i as int),
{
    let sid = match &f.security_id {
        Some(s) => chars_of(s.as_str()),
        None => chars_of(f.ticker.as_str()),
    };
    let key = match (&f.fiscal_year, &f.fiscal_period) {
        (Some(y), Some(p)) => {
            let mut k = chars_of(y.as_str());
            k.push('-');
            let mut pc = chars_of(p.as_str());
            k.append(&mut pc);
            proof {
                reveal_strlit("-");
                assert(k@ =~= y@ + "-"@ + p@);
            }
            k
        },
        _ => {
            let mut k = chars_of("row-");
            let mut d = decimal_chars(i as u64);
            k.append(&mut d);
            assert(k@ =~= "row-"@ + decimal(i as nat));
            k
        },
    };
    let ns = match f.acceptance_datetime_ns {
        Some(n) => Some(n),
        None => match &f.accession_number {
            Some(a) => lookup_backfill(bf, a.as_str()),
            None => None,
        },
    };
    let source = if f.acceptance_datetime_ns.is_some() {
        "acceptance"
    } else if ns.is_some() {
        "edgar_backfill"
    } else {
        "filing_date"
    };
    let (date, timing) = match ns {
        Some(n) => {
            let c = et_clock(n);
            (c.day, timing_of_second(c.second_of_day))
        },
        None => (f.filing_date, "unknown"),
    };
    let window = match &f.fiscal_period {
        Some(p) => chars_of(p.as_str()),
        None => chars_of("unknown"),
    };
    Cand { sid, key, date, ns, timing, source, window }
}


// ---------------------------------------------------------------------------
// Periods: the filings of one (security, fiscal identity)
// ---------------------------------------------------------------------------

/// Filings `i` and `j` report the same fiscal period of the same security.
pub open spec fn same_period(fs: Seq<FilingLite>, i: int, j: int) -> bool {
    &&& 0 <= i < fs.len()
    &&& 0 <= j < fs.len()
    &&& is_report(fs[i])
    &&& is_report(fs[j])
    &&& filing_sid(fs[i]) == filing_sid(fs[j])
    &&& period_key(fs[i], i) == period_key(fs[j], j)
}

/// Order of two acceptance instants (both present).
pub open spec fn ns_before(a: Option<i64>, b: Option<i64>) -> bool {
    match (a, b) {
        (Some(x), Some(y)) => x < y,
        _ => false,
    }
}

/// `0` for a filing with an acceptance instant (own or backfilled), `1`
/// for one that only has its filing date.
pub open spec fn instant_rank(ns: Option<i64>) -> i128 {
    if ns is Some { 0 } else { 1 }
}

/// Filing `i` is the earlier announcement of the two: a filing with an
/// acceptance instant comes before one without; then by date, acceptance
/// instant and file order.
pub open spec fn announces_before(fs: Seq<FilingLite>, bf: Seq<(String, i64)>, i: int, j: int) -> bool {
    let di = candidate_date(fs[i], bf);
    let dj = candidate_date(fs[j], bf);
    let ni = candidate_ns(fs[i], bf);
    let nj = candidate_ns(fs[j], bf);
    instant_rank(ni) < instant_rank(nj) || (instant_rank(ni) == instant_rank(nj) && (di < dj || (di == dj && (ns_before(ni, nj) || (ni == nj && i < j)))))
}

/// Filing `j` is its period's first announcement.
pub open spec fn is_period_first(fs: Seq<FilingLite>, bf: Seq<(String, i64)>, j: int) -> bool {
    &&& 0 <= j < fs.len()
    &&& is_report(fs[j])
    &&& forall|k: int| k != j && #[trigger] same_period(fs, j, k) ==> announces_before(fs, bf, j, k)
}

/// The filings of `j`'s period.
pub open spec fn period_members(fs: Seq<FilingLite>, j: int) -> Set<int> {
    Set::new(|k: int| same_period(fs, j, k))
}

/// Number of filings of `j`'s period (the first one plus its revisions).
pub open spec fn period_size(fs: Seq<FilingLite>, j: int) -> nat {
    period_members(fs, j).len()
}

/// Sort position of an acceptance instant (missing ones first).
pub open spec fn ns_code(ns: Option<i64>) -> i128 {
    match ns {
        Some(x) => x as i128,
        None => -9_223_372_036_854_775_809i128,
    }
}

/// Sort key grouping a candidate with its period, earliest announcement first.
spec fn period_sort_key(c: Cand, row: usize) -> Seq<i128> {
    enc_text(c.sid@) + enc_text(c.key@) + seq![instant_rank(c.ns), c.date as i128, ns_code(c.ns), row as i128]
}

/// `rows` lists the report filings in file order; `cands[r]` is row `r`'s
/// candidate.
spec fn rows_ok(fs: Seq<FilingLite>, bf: Seq<(String, i64)>, rows: Seq<usize>, cands: Seq<Cand>) -> bool {
    &&& rows.len() == cands.len()
    &&& forall|a: int, b: int| 0 <= a < b < rows.len() ==> rows[a] < rows[b]
    &&& forall|r: int| 0 <= r < rows.len() ==> {
        &&& (#[trigger] rows[r]) < fs.len()
        &&& is_report(fs[rows[r] as int])
        &&& cand_matches(cands[r], fs[rows[r] as int], bf, rows[r] as int)
    }
    &&& forall|j: int| 0 <= j < fs.len() && is_report(fs[j]) ==> exists|r: int| 0 <= r < rows.len() && rows[r] == j
}

fn collect_candidates(fs: &Vec<FilingLite>, bf: &Vec<(String, i64)>) -> (r: (Vec<usize>, Vec<Cand>))
    ensures
        rows_ok(fs@, bf@, r.0@, r.1@),
{
    let mut rows: Vec<usize> = Vec::new();
    let mut cands: Vec<Cand> = Vec::new();
    let mut i: usize = 0;
    while i < fs.len()
        invariant
            i <= fs@.len(),
            rows@.len() == cands@.len(),
            forall|a: int, b: int| 0 <= a < b < rows@.len() ==> rows@[a] < rows@[b],
            forall|r: int| 0 <= r < rows@.len() ==> {
                &&& (#[trigger] rows@[r]) < i
                &&& is_report(fs@[rows@[r] as int])
                &&& cand_matches(cands@[r], fs@[rows@[r] as int], bf@, rows@[r] as int)
            },
            forall|j: int| 0 <= j < i && is_report(fs@[j]) ==> exists|r: int| 0 <= r < rows@.len() && rows@[r] == j,
        decreases fs@.len() - i,
    {
        let ghost old_rows = rows@;
        if report_flag(&fs[i]) {
            let c = candidate(&fs[i], bf, i);
            rows.push(i);
            cands.push(c);
            assert(rows@[rows@.len() - 1] == i);
        }
        assert forall|j: int| 0 <= j < i + 1 && is_report(fs@[j]) implies exists|r: int| 0 <= r < rows@.len() && rows@[r] == j by {
            if j < i {
                let r = choose|r: int| 0 <= r < old_rows.len() && old_rows[r] == j;
                assert(rows@[r] == j);
            } else {
                assert(rows@[rows@.len() - 1] == i);
            }
        }
        i += 1;
    }
    (rows, cands)
}

fn build_period_keys(rows: &Vec<usize>, cands: &Vec<Cand>) -> (keys: Vec<Vec<i128>>)
    requires
        rows@.len() == cands@.len(),
        forall|a: int, b: int| 0 <= a < b < rows@.len() ==> rows@[a] < rows@[b],
    ensures
        keys@.len() == rows@.len(),
        forall|r: int| 0 <= r < rows@.len() ==> (#[trigger] keys@[r])@ == period_sort_key(cands@[r], rows@[r]),
        distinct_keys(keys@),
{
    let mut keys: Vec<Vec<i128>> = Vec::new();
    let mut r: usize = 0;
    while r < rows.len()
        invariant
            r <= rows@.len(),
            rows@.len() == cands@.len(),
            keys@.len() == r,
            forall|k: int| 0 <= k < r ==> (#[trigger] keys@[k])@ == period_sort_key(cands@[k], rows@[k]),
        decreases rows@.len() - r,
    {
        let c = &cands[r];
        let mut k: Vec<i128> = Vec::new();
        push_text(&mut k, &c.sid);
        push_text(&mut k, &c.key);
        k.push(match c.ns { Some(_) => 0i128, None => 1i128 });
        k.push(c.date as i128);
        k.push(match c.ns { Some(x) => x as i128, None => -9_223_372_036_854_775_809i128 });
        k.push(rows[r] as i128);
        assert(k@ =~= period_sort_key(cands@[r as int], rows@[r as int]));
        keys.push(k);
        r += 1;
    }
    assert forall|a: int, b: int| 0 <= a < keys@.len() && 0 <= b < keys@.len() && a != b implies #[trigger] keys@[a]@ != #[trigger] keys@[b]@ by {
        let ka = keys@[a]@;
        let kb = keys@[b]@;
        if ka == kb {
            assert(ka[ka.len() - 1] == rows@[a] as i128);
            assert(kb[kb.len() - 1] == rows@[b] as i128);
            if a < b {
                assert(rows@[a] < rows@[b]);
            } else {
                assert(rows@[b] < rows@[a]);
            }
        }
    }
    keys
}


spec fn same_sk(a: Cand, b: Cand) -> bool {
    a.sid@ == b.sid@ && a.key@ == b.key@
}

/// Keys sorted together and sharing (security, period) enclose only keys of
/// that same (security, period).
proof fn lemma_between_same_sk(keys: Seq<Vec<i128>>, rows: Seq<usize>, cands: Seq<Cand>, p: Seq<usize>, a: int, b: int, c: int)
    requires
        keys.len() == rows.len(),
        rows.len() == cands.len(),
        forall|r: int| 0 <= r < rows.len() ==> (#[trigger] keys[r])@ == period_sort_key(cands[r], rows[r]),
        is_index_perm(p, 0, keys.len() as int),
        sorted_by_keys(keys, p),
        0 <= a < b < c < p.len(),
        same_sk(cands[p[a] as int], cands[p[c] as int]),
    ensures
        same_sk(cands[p[b] as int], cands[p[a] as int]),
{
    let ca = cands[p[a] as int];
    let cb = cands[p[b] as int];
    let cc = cands[p[c] as int];
    let ka = keys[p[a] as int]@;
    let kb = keys[p[b] as int]@;
    let kc = keys[p[c] as int]@;
    let pre = enc_text(ca.sid@) + enc_text(ca.key@);
    let n = pre.len() as int;
    assert(ka =~= pre + seq![instant_rank(ca.ns), ca.date as i128, ns_code(ca.ns), rows[p[a] as int] as i128]);
    assert(kc =~= pre + seq![instant_rank(cc.ns), cc.date as i128, ns_code(cc.ns), rows[p[c] as int] as i128]);
    assert(ka.take(n) =~= pre);
    assert(kc.take(n) =~= pre);
    lemma_lex_between_shares_prefix(ka, kb, kc, n);
    let tb = seq![instant_rank(cb.ns), cb.date as i128, ns_code(cb.ns), rows[p[b] as int] as i128];
    assert(kb =~= enc_text(cb.sid@) + (enc_text(cb.key@) + tb));
    let ns1 = enc_text(ca.sid@).len() as int;
    assert(kb.take(ns1) =~= pre.take(ns1));
    assert(pre.take(ns1) =~= enc_text(ca.sid@));
    lemma_enc_text_prefix(cb.sid@, enc_text(cb.key@) + tb, ca.sid@);
    let rest = kb.skip(ns1);
    assert(rest =~= enc_text(cb.key@) + tb);
    assert(kb.take(n) =~= pre);
    assert(pre.skip(ns1) =~= enc_text(ca.key@));
    assert(rest.take(n - ns1) =~= kb.take(n).skip(ns1));
    assert(rest.take(n - ns1) =~= enc_text(ca.key@));
    lemma_enc_text_prefix(cb.key@, tb, ca.key@);
}

/// Within one (security, period), key order is announcement order.
proof fn lemma_key_order_announces(fs: Seq<FilingLite>, bf: Seq<(String, i64)>, keys: Seq<Vec<i128>>, rows: Seq<usize>, cands: Seq<Cand>, x: int, y: int)
    requires
        rows_ok(fs, bf, rows, cands),
        keys.len() == rows.len(),
        forall|r: int| 0 <= r < rows.len() ==> (#[trigger] keys[r])@ == period_sort_key(cands[r], rows[r]),
        0 <= x < rows.len(),
        0 <= y < rows.len(),
        same_sk(cands[x], cands[y]),
        lex_lt(keys[x]@, keys[y]@),
    ensures
        announces_before(fs, bf, rows[x] as int, rows[y] as int),
{
    let cx = cands[x];
    let cy = cands[y];
    let pre = enc_text(cx.sid@) + enc_text(cx.key@);
    let tx = seq![instant_rank(cx.ns), cx.date as i128, ns_code(cx.ns), rows[x] as i128];
    let ty = seq![instant_rank(cy.ns), cy.date as i128, ns_code(cy.ns), rows[y] as i128];
    assert(keys[x]@ =~= pre + tx);
    assert(keys[y]@ =~= pre + ty);
    lemma_lex_common_prefix(pre, tx, ty);
    reveal_with_fuel(lex_lt, 5);
    assert(tx.drop_first() =~= seq![cx.date as i128, ns_code(cx.ns), rows[x] as i128]);
    assert(ty.drop_first() =~= seq![cy.date as i128, ns_code(cy.ns), rows[y] as i128]);
    let tx = tx.drop_first();
    let ty = ty.drop_first();
    assert(tx.drop_first() =~= seq![ns_code(cx.ns), rows[x] as i128]);
    assert(ty.drop_first() =~= seq![ns_code(cy.ns), rows[y] as i128]);
    assert(tx.drop_first().drop_first() =~= seq![rows[x] as i128]);
    assert(ty.drop_first().drop_first() =~= seq![rows[y] as i128]);
    assert(seq![rows[x] as i128].drop_first() =~= Seq::<i128>::empty());
    assert(seq![rows[y] as i128].drop_first() =~= Seq::<i128>::empty());
}

proof fn lemma_announces_asymmetric(fs: Seq<FilingLite>, bf: Seq<(String, i64)>, i: int, j: int)
    requires
        announces_before(fs, bf, i, j),
    ensures
        !announces_before(fs, bf, j, i),
{
}

/// One entry per period: its first announcement (candidate row) and size.
spec fn groups_ok(fs: Seq<FilingLite>, bf: Seq<(String, i64)>, rows: Seq<usize>, leads: Seq<usize>, counts: Seq<usize>) -> bool {
    &&& leads.len() == counts.len()
    &&& forall|g: int| 0 <= g < leads.len() ==> {
        &&& (#[trigger] leads[g]) < rows.len()
        &&& is_period_first(fs, bf, rows[leads[g] as int] as int)
        &&& counts[g] == period_size(fs, rows[leads[g] as int] as int)
        &&& counts[g] >= 1
    }
    &&& forall|j: int| is_period_first(fs, bf, j) ==> exists|g: int| 0 <= g < leads.len() && rows[leads[g] as int] == j
}

fn group_periods(
    Ghost(fs): Ghost<Seq<FilingLite>>,
    Ghost(bf): Ghost<Seq<(String, i64)>>,
    rows: &Vec<usize>,
    cands: &Vec<Cand>,
    keys: &Vec<Vec<i128>>,
    p: &Vec<usize>,
) -> (r: (Vec<usize>, Vec<usize>))
    requires
        rows_ok(fs, bf, rows@, cands@),
        keys@.len() == rows@.len(),
        forall|k: int| 0 <= k < rows@.len() ==> (#[trigger] keys@[k])@ == period_sort_key(cands@[k], rows@[k]),
        is_index_perm(p@, 0, keys@.len() as int),
        sorted_by_keys(keys@, p@),
    ensures
        groups_ok(fs, bf, rows@, r.0@, r.1@),
{
    let n = p.len();
    let mut leads: Vec<usize> = Vec::new();
    let mut counts: Vec<usize> = Vec::new();
    let mut t: usize = 0;
    while t < n
        invariant
            n == p@.len(),
            rows_ok(fs, bf, rows@, cands@),
            keys@.len() == rows@.len(),
            forall|k: int| 0 <= k < rows@.len() ==> (#[trigger] keys@[k])@ == period_sort_key(cands@[k], rows@[k]),
            is_index_perm(p@, 0, keys@.len() as int),
            sorted_by_keys(keys@, p@),
            t <= n,
            0 < t < n ==> !same_sk(cands@[p@[t - 1] as int], cands@[p@[t as int] as int]),
            leads@.len() == counts@.len(),
            forall|g: int| 0 <= g < leads@.len() ==> {
                &&& (#[trigger] leads@[g]) < rows@.len()
                &&& is_period_first(fs, bf, rows@[leads@[g] as int] as int)
                &&& counts@[g] == period_size(fs, rows@[leads@[g] as int] as int)
                &&& counts@[g] >= 1
            },
            forall|k: int| 0 <= k < t && is_period_first(fs, bf, rows@[p@[k] as int] as int)
                ==> exists|g: int| 0 <= g < leads@.len() && leads@[g] == p@[k],
        decreases n - t,
    {
        let s = t;
        t += 1;
        while t < n && chars_eq(&cands[p[t]].sid, &cands[p[s]].sid) && chars_eq(&cands[p[t]].key, &cands[p[s]].key)
            invariant
                n == p@.len(),
                s < t <= n,
                is_index_perm(p@, 0, keys@.len() as int),
                keys@.len() == rows@.len(),
                rows@.len() == cands@.len(),
                forall|k: int| s <= k < t ==> same_sk(#[trigger] cands@[p@[k] as int], cands@[p@[s as int] as int]),
            decreases n - t,
        {
            t += 1;
        }
        let lead = p[s];
        let ghost j0 = rows@[lead as int] as int;
        proof {
            // The run p[s..t] is exactly the period of the lead.
            assert forall|k: int| s <= k < t implies #[trigger] same_period(fs, j0, rows@[p@[k] as int] as int) by {
                assert(same_sk(cands@[p@[k] as int], cands@[p@[s as int] as int]));
            }
            assert forall|m: int| same_period(fs, j0, m) implies exists|k: int| s <= k < t && rows@[p@[k] as int] == m by {
                let r = choose|r: int| 0 <= r < rows@.len() && rows@[r] == m;
                assert(p@.contains(r as usize));
                let kk = choose|kk: int| 0 <= kk < p@.len() && p@[kk] == r as usize;
                assert(same_sk(cands@[r], cands@[p@[s as int] as int]));
                if kk < s {
                    if kk < s - 1 {
                        lemma_between_same_sk(keys@, rows@, cands@, p@, kk, s - 1, s as int);
                    }
                } else if kk >= t {
                    if kk > t {
                        lemma_between_same_sk(keys@, rows@, cands@, p@, s as int, t as int, kk);
                    }
                }
            }
            let f = |k: int| rows@[p@[k] as int] as int;
            let range = vstd::set_lib::set_int_range(s as int, t as int);
            vstd::set_lib::lemma_int_range(s as int, t as int);
            assert(range.map(f) =~= period_members(fs, j0)) by {
                assert forall|m: int| period_members(fs, j0).contains(m) implies range.map(f).contains(m) by {
                    let k = choose|k: int| s <= k < t && rows@[p@[k] as int] == m;
                    assert(range.contains(k) && f(k) == m);
                }
            }
            assert forall|k1: int, k2: int| range.contains(k1) && range.contains(k2) && #[trigger] f(k1) == #[trigger] f(k2) implies k1 == k2 by {
                let r1 = p@[k1] as int;
                let r2 = p@[k2] as int;
                if r1 != r2 {
                    if r1 < r2 { assert(rows@[r1] < rows@[r2]); } else { assert(rows@[r2] < rows@[r1]); }
                }
                if k1 != k2 {
                    assert(p@.no_duplicates());
                }
            }
            vstd::set_lib::lemma_map_size(range, period_members(fs, j0), f);
            // The lead announces before every other filing of its period.
            assert forall|m: int| m != j0 && #[trigger] same_period(fs, j0, m) implies announces_before(fs, bf, j0, m) by {
                let k = choose|k: int| s <= k < t && rows@[p@[k] as int] == m;
                assert(k != s);
                assert(lex_lt(keys@[p@[s as int] as int]@, keys@[p@[k] as int]@));
                lemma_key_order_announces(fs, bf, keys@, rows@, cands@, p@[s as int] as int, p@[k] as int);
            }
            assert(is_period_first(fs, bf, j0));
        }
        let ghost old_leads = leads@;
        leads.push(lead);
        counts.push(t - s);
        proof {
            assert forall|k: int| 0 <= k < t && is_period_first(fs, bf, rows@[p@[k] as int] as int)
                implies exists|g: int| 0 <= g < leads@.len() && leads@[g] == p@[k] by {
                if k < s {
                    let g = choose|g: int| 0 <= g < old_leads.len() && old_leads[g] == p@[k];
                    assert(leads@[g] == p@[k]);
                } else if k == s {
                    assert(leads@[leads@.len() - 1] == p@[k]);
                } else {
                    let jk = rows@[p@[k] as int] as int;
                    assert(same_sk(cands@[p@[k] as int], cands@[p@[s as int] as int]));
                    assert(same_period(fs, jk, j0));
                    assert(lex_lt(keys@[p@[s as int] as int]@, keys@[p@[k] as int]@));
                    lemma_key_order_announces(fs, bf, keys@, rows@, cands@, p@[s as int] as int, p@[k] as int);
                    if rows@[p@[k] as int] == rows@[p@[s as int] as int] {
                        assert(p@.no_duplicates());
                    }
                    lemma_announces_asymmetric(fs, bf, j0, jk);
                }
            }
        }
    }
    proof {
        assert forall|j: int| is_period_first(fs, bf, j) implies exists|g: int| 0 <= g < leads@.len() && rows@[leads@[g] as int] == j by {
            let r = choose|r: int| 0 <= r < rows@.len() && rows@[r] == j;
            assert(p@.contains(r as usize));
            let k = choose|k: int| 0 <= k < p@.len() && p@[k] == r as usize;
            let g = choose|g: int| 0 <= g < leads@.len() && leads@[g] == p@[k];
        }
    }
    (leads, counts)
}


// ---------------------------------------------------------------------------
// Events: one per (security, earnings date)
// ---------------------------------------------------------------------------

/// Period firsts `i` and `j` announce on the same day for the same security.
pub open spec fn same_event(fs: Seq<FilingLite>, bf: Seq<(String, i64)>, i: int, j: int) -> bool {
    &&& is_period_first(fs, bf, i)
    &&& is_period_first(fs, bf, j)
    &&& filing_sid(fs[i]) == filing_sid(fs[j])
    &&& candidate_date(fs[i], bf) == candidate_date(fs[j], bf)
}

/// Revision count of the period led by `j` (filings beyond the first),
/// as the `i32` column holds it.
pub open spec fn revisions(fs: Seq<FilingLite>, j: int) -> i32 {
    (period_size(fs, j) - 1) as i32
}

/// A quarterly window label (`Q1`..`Q4`).
pub open spec fn is_quarter_label(w: Seq<char>) -> bool {
    w.len() > 0 && w[0] == 'Q'
}

pub open spec fn seq_le(a: Seq<char>, b: Seq<char>) -> bool {
    seq_lt(a, b) || a == b
}

/// Period first `l` leads its event: least window label, then earliest row.
pub open spec fn leads_event(fs: Seq<FilingLite>, bf: Seq<(String, i64)>, l: int) -> bool {
    &&& is_period_first(fs, bf, l)
    &&& forall|j: int| j != l && #[trigger] same_event(fs, bf, l, j) ==> {
        ||| seq_lt(candidate_window(fs[l]), candidate_window(fs[j]))
        ||| (candidate_window(fs[l]) == candidate_window(fs[j]) && l < j)
    }
}

/// `e` is the event led by period first `l`: the lead's date, timing and
/// source; the largest revision count of the event's periods; the greatest
/// quarterly window label among them, else the lead's label.
#[verifier::opaque]
pub open spec fn describes_event(fs: Seq<FilingLite>, bf: Seq<(String, i64)>, l: int, e: EarningsEvent) -> bool {
    &&& leads_event(fs, bf, l)
    &&& e.security_id@ == filing_sid(fs[l])
    &&& e.earnings_date == candidate_date(fs[l], bf)
    &&& e.announced_at_date == e.earnings_date
    &&& e.report_timing@ == candidate_timing(fs[l], bf)
    &&& e.source@ == candidate_source(fs[l], bf)
    &&& exists|j: int| #[trigger] same_event(fs, bf, l, j) && e.revision_count == revisions(fs, j)
    &&& forall|j: int| #[trigger] same_event(fs, bf, l, j) ==> revisions(fs, j) <= e.revision_count
    &&& if exists|j: int| #[trigger] same_event(fs, bf, l, j) && is_quarter_label(candidate_window(fs[j])) {
        &&& exists|j: int| #[trigger] same_event(fs, bf, l, j) && is_quarter_label(candidate_window(fs[j]))
            && e.earnings_window@ == candidate_window(fs[j])
        &&& forall|j: int| #[trigger] same_event(fs, bf, l, j) && is_quarter_label(candidate_window(fs[j]))
            ==> seq_le(candidate_window(fs[j]), e.earnings_window@)
    } else {
        e.earnings_window@ == candidate_window(fs[l])
    }
}

/// `e` is the event led by some period first.
pub open spec fn is_filed_event(fs: Seq<FilingLite>, bf: Seq<(String, i64)>, e: EarningsEvent) -> bool {
    exists|l: int| describes_event(fs, bf, l, e)
}

/// Each event is led by some period first.
pub open spec fn events_described(fs: Seq<FilingLite>, bf: Seq<(String, i64)>, ev: Seq<EarningsEvent>) -> bool {
    forall|a: int| 0 <= a < ev.len() ==> #[trigger] is_filed_event(fs, bf, ev[a])
}

/// Calendar order: by security id, then earnings date.
pub open spec fn event_before(a: EarningsEvent, b: EarningsEvent) -> bool {
    seq_lt(a.security_id@, b.security_id@) || (a.security_id@ == b.security_id@ && a.earnings_date < b.earnings_date)
}

/// `ev` is the earnings calendar of the filings: strictly ordered, each
/// event led by a period first, and every period first's (security, date)
/// present.
pub open spec fn calendar_of(fs: Seq<FilingLite>, bf: Seq<(String, i64)>, ev: Seq<EarningsEvent>) -> bool {
    &&& forall|a: int, b: int| 0 <= a < b < ev.len() ==> event_before(#[trigger] ev[a], #[trigger] ev[b])
    &&& events_described(fs, bf, ev)
    &&& forall|j: int| is_period_first(fs, bf, j) ==> exists|a: int| 0 <= a < ev.len()
        && (#[trigger] ev[a]).security_id@ == filing_sid(fs[j]) && ev[a].earnings_date == candidate_date(fs[j], bf)
}

spec fn same_sd(a: Cand, b: Cand) -> bool {
    a.sid@ == b.sid@ && a.date == b.date
}

/// Sort key of group `g` (lead candidate `c` on `row`): security, date,
/// window label, row.
spec fn event_sort_key(c: Cand, row: usize, g: usize) -> Seq<i128> {
    enc_text(c.sid@) + seq![c.date as i128] + enc_text(c.window@) + seq![row as i128, g as i128]
}

spec fn event_keys_ok(keys: Seq<Vec<i128>>, rows: Seq<usize>, cands: Seq<Cand>, leads: Seq<usize>) -> bool {
    &&& keys.len() == leads.len()
    &&& forall|g: int| 0 <= g < leads.len() ==> (#[trigger] keys[g])@ == event_sort_key(cands[leads[g] as int], rows[leads[g] as int], g as usize)
}

fn build_event_keys(rows: &Vec<usize>, cands: &Vec<Cand>, leads: &Vec<usize>) -> (keys: Vec<Vec<i128>>)
    requires
        rows@.len() == cands@.len(),
        forall|g: int| 0 <= g < leads@.len() ==> (#[trigger] leads@[g]) < rows@.len(),
    ensures
        event_keys_ok(keys@, rows@, cands@, leads@),
        distinct_keys(keys@),
{
    let mut keys: Vec<Vec<i128>> = Vec::new();
    let mut g: usize = 0;
    while g < leads.len()
        invariant
            g <= leads@.len(),
            rows@.len() == cands@.len(),
            forall|h: int| 0 <= h < leads@.len() ==> (#[trigger] leads@[h]) < rows@.len(),
            keys@.len() == g,
            forall|h: int| 0 <= h < g ==> (#[trigger] keys@[h])@ == event_sort_key(cands@[leads@[h] as int], rows@[leads@[h] as int], h as usize),
        decreases leads@.len() - g,
    {
        let c = &cands[leads[g]];
        let mut k: Vec<i128> = Vec::new();
        push_text(&mut k, &c.sid);
        k.push(c.date as i128);
        push_text(&mut k, &c.window);
        k.push(rows[leads[g]] as i128);
        k.push(g as i128);
        assert(k@ =~= event_sort_key(cands@[leads@[g as int] as int], rows@[leads@[g as int] as int], g));
        keys.push(k);
        g += 1;
    }
    assert forall|a: int, b: int| 0 <= a < keys@.len() && 0 <= b < keys@.len() && a != b implies #[trigger] keys@[a]@ != #[trigger] keys@[b]@ by {
        let ka = keys@[a]@;
        let kb = keys@[b]@;
        assert(ka[ka.len() - 1] == a as i128);
        assert(kb[kb.len() - 1] == b as i128);
    }
    keys
}


/// Lead candidate of the group at sort position `k`.
spec fn gcand(cands: Seq<Cand>, leads: Seq<usize>, q: Seq<usize>, k: int) -> Cand {
    cands[leads[q[k] as int] as int]
}

/// Filing row of the group at sort position `k`.
spec fn grow(rows: Seq<usize>, leads: Seq<usize>, q: Seq<usize>, k: int) -> int {
    rows[leads[q[k] as int] as int] as int
}

/// Group keys sorted together and sharing (security, date) enclose only
/// groups of that same (security, date).
proof fn lemma_between_same_sd(keys: Seq<Vec<i128>>, rows: Seq<usize>, cands: Seq<Cand>, leads: Seq<usize>, q: Seq<usize>, a: int, b: int, c: int)
    requires
        event_keys_ok(keys, rows, cands, leads),
        is_index_perm(q, 0, keys.len() as int),
        sorted_by_keys(keys, q),
        0 <= a < b < c < q.len(),
        same_sd(gcand(cands, leads, q, a), gcand(cands, leads, q, c)),
    ensures
        same_sd(gcand(cands, leads, q, b), gcand(cands, leads, q, a)),
{
    let ga = q[a] as int;
    let gb = q[b] as int;
    let gc = q[c] as int;
    let ca = gcand(cands, leads, q, a);
    let cb = gcand(cands, leads, q, b);
    let cc = gcand(cands, leads, q, c);
    let ka = keys[ga]@;
    let kb = keys[gb]@;
    let kc = keys[gc]@;
    let pre = enc_text(ca.sid@) + seq![ca.date as i128];
    let n = pre.len() as int;
    assert(ka =~= pre + (enc_text(ca.window@) + seq![rows[leads[ga] as int] as i128, q[a] as i128]));
    assert(kc =~= pre + (enc_text(cc.window@) + seq![rows[leads[gc] as int] as i128, q[c] as i128]));
    assert(ka.take(n) =~= pre);
    assert(kc.take(n) =~= pre);
    lemma_lex_between_shares_prefix(ka, kb, kc, n);
    let tb = seq![cb.date as i128] + enc_text(cb.window@) + seq![rows[leads[gb] as int] as i128, q[b] as i128];
    assert(kb =~= enc_text(cb.sid@) + tb);
    let ns1 = enc_text(ca.sid@).len() as int;
    assert(kb.take(n) =~= pre);
    assert(kb.take(ns1) =~= kb.take(n).take(ns1));
    assert(pre.take(ns1) =~= enc_text(ca.sid@));
    lemma_enc_text_prefix(cb.sid@, tb, ca.sid@);
    assert(kb.take(n)[ns1] == pre[ns1]);
    assert(kb[ns1] == cb.date as i128);
}

/// Within one (security, date), group key order is window order, then row.
proof fn lemma_event_key_within(cx: Cand, rx: usize, gx: usize, cy: Cand, ry: usize, gy: usize)
    requires
        same_sd(cx, cy),
        lex_lt(event_sort_key(cx, rx, gx), event_sort_key(cy, ry, gy)),
    ensures
        seq_lt(cx.window@, cy.window@) || (cx.window@ == cy.window@ && (rx < ry || (rx == ry && gx < gy))),
{
    let pre = enc_text(cx.sid@) + seq![cx.date as i128];
    let tx = seq![rx as i128, gx as i128];
    let ty = seq![ry as i128, gy as i128];
    assert(event_sort_key(cx, rx, gx) =~= pre + (enc_text(cx.window@) + tx));
    assert(event_sort_key(cy, ry, gy) =~= pre + (enc_text(cy.window@) + ty));
    lemma_lex_common_prefix(pre, enc_text(cx.window@) + tx, enc_text(cy.window@) + ty);
    if cx.window@ != cy.window@ {
        lemma_lex_enc_text(cx.window@, tx, cy.window@, ty);
    } else {
        lemma_lex_common_prefix(enc_text(cx.window@), tx, ty);
        reveal_with_fuel(lex_lt, 3);
        assert(tx.drop_first() =~= seq![gx as i128]);
        assert(ty.drop_first() =~= seq![gy as i128]);
        assert(seq![gx as i128].drop_first() =~= Seq::<i128>::empty());
        assert(seq![gy as i128].drop_first() =~= Seq::<i128>::empty());
    }
}

/// Across (security, date) pairs, group key order is calendar order.
proof fn lemma_event_key_across(cx: Cand, rx: usize, gx: usize, cy: Cand, ry: usize, gy: usize)
    requires
        !same_sd(cx, cy),
        lex_lt(event_sort_key(cx, rx, gx), event_sort_key(cy, ry, gy)),
    ensures
        seq_lt(cx.sid@, cy.sid@) || (cx.sid@ == cy.sid@ && cx.date < cy.date),
{
    let restx = seq![cx.date as i128] + enc_text(cx.window@) + seq![rx as i128, gx as i128];
    let resty = seq![cy.date as i128] + enc_text(cy.window@) + seq![ry as i128, gy as i128];
    assert(event_sort_key(cx, rx, gx) =~= enc_text(cx.sid@) + restx);
    assert(event_sort_key(cy, ry, gy) =~= enc_text(cy.sid@) + resty);
    if cx.sid@ != cy.sid@ {
        lemma_lex_enc_text(cx.sid@, restx, cy.sid@, resty);
    } else {
        lemma_lex_common_prefix(enc_text(cx.sid@), restx, resty);
        assert(restx[0] == cx.date as i128);
        assert(resty[0] == cy.date as i128);
    }
}

/// The groups at sort positions `s..t` are exactly the period firsts of
/// one event.
proof fn lemma_event_run(
    fs: Seq<FilingLite>, bf: Seq<(String, i64)>, rows: Seq<usize>, cands: Seq<Cand>,
    leads: Seq<usize>, counts: Seq<usize>, keys: Seq<Vec<i128>>, q: Seq<usize>, s: int, t: int,
)
    requires
        rows_ok(fs, bf, rows, cands),
        groups_ok(fs, bf, rows, leads, counts),
        event_keys_ok(keys, rows, cands, leads),
        keys.len() <= usize::MAX,
        is_index_perm(q, 0, keys.len() as int),
        sorted_by_keys(keys, q),
        0 <= s < t <= q.len(),
        forall|k: int| s <= k < t ==> same_sd(#[trigger] gcand(cands, leads, q, k), gcand(cands, leads, q, s)),
        s > 0 ==> !same_sd(gcand(cands, leads, q, s - 1), gcand(cands, leads, q, s)),
        t < q.len() ==> !same_sd(gcand(cands, leads, q, t - 1), gcand(cands, leads, q, t)),
    ensures
        forall|k: int| 0 <= k < q.len() ==> {
            &&& (#[trigger] grow(rows, leads, q, k)) < fs.len()
            &&& is_period_first(fs, bf, grow(rows, leads, q, k))
            &&& cand_matches(gcand(cands, leads, q, k), fs[grow(rows, leads, q, k)], bf, grow(rows, leads, q, k))
        },
        forall|j: int| same_event(fs, bf, grow(rows, leads, q, s), j)
            <==> exists|k: int| s <= k < t && #[trigger] grow(rows, leads, q, k) == j,
{
    assert forall|k: int| 0 <= k < q.len() implies {
        &&& (#[trigger] grow(rows, leads, q, k)) < fs.len()
        &&& is_period_first(fs, bf, grow(rows, leads, q, k))
        &&& cand_matches(gcand(cands, leads, q, k), fs[grow(rows, leads, q, k)], bf, grow(rows, leads, q, k))
    } by {
        let g = q[k] as int;
        assert(0 <= g < leads.len());
        assert(leads[g] < rows.len());
    }
    let l = grow(rows, leads, q, s);
    assert forall|j: int| same_event(fs, bf, l, j)
        implies exists|k: int| s <= k < t && #[trigger] grow(rows, leads, q, k) == j by {
        let g = choose|g: int| 0 <= g < leads.len() && rows[leads[g] as int] == j;
        assert(q.contains(g as usize));
        let k = choose|k: int| 0 <= k < q.len() && q[k] == g as usize;
        assert(q[k] as int == g);
        assert(leads[q[k] as int] == leads[g]);
        assert(grow(rows, leads, q, k) == j);
        assert(same_sd(gcand(cands, leads, q, k), gcand(cands, leads, q, s)));
        if k < s {
            if k < s - 1 {
                lemma_between_same_sd(keys, rows, cands, leads, q, k, s - 1, s);
            }
        } else if k >= t {
            if k > t {
                lemma_between_same_sd(keys, rows, cands, leads, q, s, t, k);
            }
        }
    }
    assert forall|j: int| (exists|k: int| s <= k < t && #[trigger] grow(rows, leads, q, k) == j)
        implies same_event(fs, bf, l, j) by {
        let k = choose|k: int| s <= k < t && #[trigger] grow(rows, leads, q, k) == j;
        assert(same_sd(gcand(cands, leads, q, k), gcand(cands, leads, q, s)));
    }
}


/// The event assembled from the run `s..t`: lead at `s`, largest revision
/// count at `rk`, window label from `wk`.
proof fn lemma_run_event(
    fs: Seq<FilingLite>, bf: Seq<(String, i64)>, rows: Seq<usize>, cands: Seq<Cand>,
    leads: Seq<usize>, counts: Seq<usize>, keys: Seq<Vec<i128>>, q: Seq<usize>,
    s: int, t: int, rk: int, wk: int, e: EarningsEvent,
)
    requires
        rows_ok(fs, bf, rows, cands),
        groups_ok(fs, bf, rows, leads, counts),
        event_keys_ok(keys, rows, cands, leads),
        keys.len() <= usize::MAX,
        is_index_perm(q, 0, keys.len() as int),
        sorted_by_keys(keys, q),
        0 <= s < t <= q.len(),
        forall|k: int| s <= k < t ==> same_sd(#[trigger] gcand(cands, leads, q, k), gcand(cands, leads, q, s)),
        s > 0 ==> !same_sd(gcand(cands, leads, q, s - 1), gcand(cands, leads, q, s)),
        t < q.len() ==> !same_sd(gcand(cands, leads, q, t - 1), gcand(cands, leads, q, t)),
        s <= rk < t,
        e.revision_count == (counts[q[rk] as int] - 1) as i32,
        forall|k: int| s <= k < t ==> (#[trigger] counts[q[k] as int] - 1) as i32 <= e.revision_count,
        s <= wk < t,
        wk != s ==> is_quarter_label(gcand(cands, leads, q, wk).window@),
        forall|k: int| s <= k < t && is_quarter_label((#[trigger] gcand(cands, leads, q, k)).window@) ==> {
            &&& is_quarter_label(gcand(cands, leads, q, wk).window@)
            &&& seq_le(gcand(cands, leads, q, k).window@, gcand(cands, leads, q, wk).window@)
        },
        e.security_id@ == gcand(cands, leads, q, s).sid@,
        e.earnings_date == gcand(cands, leads, q, s).date,
        e.announced_at_date == gcand(cands, leads, q, s).date,
        e.report_timing@ == gcand(cands, leads, q, s).timing@,
        e.source@ == gcand(cands, leads, q, s).source@,
        e.earnings_window@ == gcand(cands, leads, q, wk).window@,
    ensures
        describes_event(fs, bf, grow(rows, leads, q, s), e),
{
    reveal(describes_event);
    lemma_event_run(fs, bf, rows, cands, leads, counts, keys, q, s, t);
    let l = grow(rows, leads, q, s);
    assert(grow(rows, leads, q, s) == l);
    assert(same_event(fs, bf, l, l));
    assert forall|j: int| j != l && #[trigger] same_event(fs, bf, l, j) implies {
        ||| seq_lt(candidate_window(fs[l]), candidate_window(fs[j]))
        ||| (candidate_window(fs[l]) == candidate_window(fs[j]) && l < j)
    } by {
        let k = choose|k: int| s <= k < t && #[trigger] grow(rows, leads, q, k) == j;
        assert(k != s);
        assert(lex_lt(keys[q[s] as int]@, keys[q[k] as int]@));
        lemma_event_key_within(
            gcand(cands, leads, q, s), rows[leads[q[s] as int] as int], q[s],
            gcand(cands, leads, q, k), rows[leads[q[k] as int] as int], q[k],
        );
    }
    assert(leads_event(fs, bf, l));
    let jr = grow(rows, leads, q, rk);
    assert(grow(rows, leads, q, rk) == jr);
    assert(same_event(fs, bf, l, jr) && e.revision_count == revisions(fs, jr));
    assert forall|j: int| #[trigger] same_event(fs, bf, l, j) implies revisions(fs, j) <= e.revision_count by {
        let k = choose|k: int| s <= k < t && #[trigger] grow(rows, leads, q, k) == j;
        assert((counts[q[k] as int] - 1) as i32 <= e.revision_count);
    }
    let jw = grow(rows, leads, q, wk);
    assert(grow(rows, leads, q, wk) == jw);
    if exists|j: int| #[trigger] same_event(fs, bf, l, j) && is_quarter_label(candidate_window(fs[j])) {
        let j0 = choose|j: int| #[trigger] same_event(fs, bf, l, j) && is_quarter_label(candidate_window(fs[j]));
        let k0 = choose|k: int| s <= k < t && #[trigger] grow(rows, leads, q, k) == j0;
        assert(is_quarter_label(gcand(cands, leads, q, k0).window@));
        assert(same_event(fs, bf, l, jw) && is_quarter_label(candidate_window(fs[jw])));
        assert forall|j: int| #[trigger] same_event(fs, bf, l, j) && is_quarter_label(candidate_window(fs[j]))
            implies seq_le(candidate_window(fs[j]), e.earnings_window@) by {
            let k = choose|k: int| s <= k < t && #[trigger] grow(rows, leads, q, k) == j;
            assert(is_quarter_label(gcand(cands, leads, q, k).window@));
        }
    } else {
        if wk != s {
            assert(same_event(fs, bf, l, jw) && is_quarter_label(candidate_window(fs[jw])));
        }
    }
}

/// Scans the run of groups sharing (security, date) that starts at sort
/// position `s`: returns its end, its largest revision count (reached at
/// `rk`) and the position whose window label the event takes.
fn scan_run(
    Ghost(fs): Ghost<Seq<FilingLite>>,
    Ghost(bf): Ghost<Seq<(String, i64)>>,
    rows: &Vec<usize>,
    cands: &Vec<Cand>,
    leads: &Vec<usize>,
    counts: &Vec<usize>,
    keys: &Vec<Vec<i128>>,
    q: &Vec<usize>,
    s: usize,
) -> (r: (usize, i32, usize, Ghost<int>))
    requires
        rows_ok(fs, bf, rows@, cands@),
        groups_ok(fs, bf, rows@, leads@, counts@),
        event_keys_ok(keys@, rows@, cands@, leads@),
        is_index_perm(q@, 0, keys@.len() as int),
        sorted_by_keys(keys@, q@),
        s < q@.len(),
    ensures
        s < r.0 <= q@.len(),
        forall|k: int| s <= k < r.0 ==> same_sd(#[trigger] gcand(cands@, leads@, q@, k), gcand(cands@, leads@, q@, s as int)),
        r.0 < q@.len() ==> !same_sd(gcand(cands@, leads@, q@, r.0 as int), gcand(cands@, leads@, q@, s as int)),
        s <= r.3@ < r.0,
        r.1 == (counts@[q@[r.3@] as int] - 1) as i32,
        forall|k: int| s <= k < r.0 ==> (#[trigger] counts@[q@[k] as int] - 1) as i32 <= r.1,
        s <= r.2 < r.0,
        r.2 != s ==> is_quarter_label(gcand(cands@, leads@, q@, r.2 as int).window@),
        forall|k: int| s <= k < r.0 && is_quarter_label((#[trigger] gcand(cands@, leads@, q@, k)).window@) ==> {
            &&& is_quarter_label(gcand(cands@, leads@, q@, r.2 as int).window@)
            &&& seq_le(gcand(cands@, leads@, q@, k).window@, gcand(cands@, leads@, q@, r.2 as int).window@)
        },
{
    let n = q.len();
    let g0 = q[s];
    let c0 = &cands[leads[g0]];
    let mut rev: i32 = (counts[g0] - 1) as i32;
    let mut wk: usize = s;
    let ghost mut rk: int = s as int;
    let mut t: usize = s + 1;
    while t < n && chars_eq(&cands[leads[q[t]]].sid, &c0.sid) && cands[leads[q[t]]].date == c0.date
        invariant
            n == q@.len(),
            rows_ok(fs, bf, rows@, cands@),
            groups_ok(fs, bf, rows@, leads@, counts@),
            event_keys_ok(keys@, rows@, cands@, leads@),
            is_index_perm(q@, 0, keys@.len() as int),
            sorted_by_keys(keys@, q@),
            s < t <= n,
            g0 == q@[s as int],
            *c0 == gcand(cands@, leads@, q@, s as int),
            forall|k: int| s <= k < t ==> same_sd(#[trigger] gcand(cands@, leads@, q@, k), gcand(cands@, leads@, q@, s as int)),
            s <= rk < t,
            rev == (counts@[q@[rk] as int] - 1) as i32,
            forall|k: int| s <= k < t ==> (#[trigger] counts@[q@[k] as int] - 1) as i32 <= rev,
            s <= wk < t,
            wk != s ==> is_quarter_label(gcand(cands@, leads@, q@, wk as int).window@),
            forall|k: int| s <= k < t && is_quarter_label((#[trigger] gcand(cands@, leads@, q@, k)).window@) ==> {
                &&& is_quarter_label(gcand(cands@, leads@, q@, wk as int).window@)
                &&& seq_le(gcand(cands@, leads@, q@, k).window@, gcand(cands@, leads@, q@, wk as int).window@)
            },
        decreases n - t,
    {
        let gt = q[t];
        let ct = &cands[leads[gt]];
        assert(same_sd(gcand(cands@, leads@, q@, t as int), gcand(cands@, leads@, q@, s as int)));
        let r = (counts[gt] - 1) as i32;
        if r > rev {
            rev = r;
            proof { rk = t as int; }
        }
        if ct.window.len() > 0 && ct.window[0] == 'Q' {
            proof {
                assert forall|k: int| s <= k < t && is_quarter_label((#[trigger] gcand(cands@, leads@, q@, k)).window@)
                    implies seq_le(gcand(cands@, leads@, q@, k).window@, ct.window@) by {
                    assert(lex_lt(keys@[q@[k] as int]@, keys@[q@[t as int] as int]@));
                    lemma_event_key_within(
                        gcand(cands@, leads@, q@, k), rows@[leads@[q@[k] as int] as int], q@[k],
                        gcand(cands@, leads@, q@, t as int), rows@[leads@[q@[t as int] as int] as int], q@[t as int],
                    );
                }
            }
            wk = t;
        }
        t += 1;
    }
    (t, rev, wk, Ghost(rk))
}

/// An event of a later run comes after the events of earlier runs.
proof fn lemma_run_after(
    rows: Seq<usize>, cands: Seq<Cand>, leads: Seq<usize>, keys: Seq<Vec<i128>>, q: Seq<usize>,
    r: int, s: int, a: EarningsEvent, e: EarningsEvent,
)
    requires
        event_keys_ok(keys, rows, cands, leads),
        is_index_perm(q, 0, keys.len() as int),
        sorted_by_keys(keys, q),
        0 <= r < s < q.len(),
        !same_sd(gcand(cands, leads, q, s - 1), gcand(cands, leads, q, s)),
        a.security_id@ == gcand(cands, leads, q, r).sid@,
        a.earnings_date == gcand(cands, leads, q, r).date,
        e.security_id@ == gcand(cands, leads, q, s).sid@,
        e.earnings_date == gcand(cands, leads, q, s).date,
    ensures
        event_before(a, e),
{
    if same_sd(gcand(cands, leads, q, r), gcand(cands, leads, q, s)) {
        if r < s - 1 {
            lemma_between_same_sd(keys, rows, cands, leads, q, r, s - 1, s);
        }
        assert(false);
    }
    assert(lex_lt(keys[q[r] as int]@, keys[q[s] as int]@));
    lemma_event_key_across(
        gcand(cands, leads, q, r), rows[leads[q[r] as int] as int], q[r],
        gcand(cands, leads, q, s), rows[leads[q[s] as int] as int], q[s],
    );
}

fn assemble_events(
    Ghost(fs): Ghost<Seq<FilingLite>>,
    Ghost(bf): Ghost<Seq<(String, i64)>>,
    rows: &Vec<usize>,
    cands: &Vec<Cand>,
    leads: &Vec<usize>,
    counts: &Vec<usize>,
    keys: &Vec<Vec<i128>>,
    q: &Vec<usize>,
) -> (ev: Vec<EarningsEvent>)
    requires
        rows_ok(fs, bf, rows@, cands@),
        groups_ok(fs, bf, rows@, leads@, counts@),
        event_keys_ok(keys@, rows@, cands@, leads@),
        is_index_perm(q@, 0, keys@.len() as int),
        sorted_by_keys(keys@, q@),
    ensures
        calendar_of(fs, bf, ev@),
{
    let n = q.len();
    let mut ev: Vec<EarningsEvent> = Vec::new();
    let ghost mut reps: Seq<int> = Seq::empty();
    let mut t: usize = 0;
    while t < n
        invariant
            n == q@.len(),
            rows_ok(fs, bf, rows@, cands@),
            groups_ok(fs, bf, rows@, leads@, counts@),
            event_keys_ok(keys@, rows@, cands@, leads@),
            is_index_perm(q@, 0, keys@.len() as int),
            sorted_by_keys(keys@, q@),
            t <= n,
            0 < t < n ==> !same_sd(gcand(cands@, leads@, q@, t - 1), gcand(cands@, leads@, q@, t as int)),
            reps.len() == ev@.len(),
            forall|a: int| 0 <= a < ev@.len() ==> {
                &&& 0 <= #[trigger] reps[a] < t
                &&& ev@[a].security_id@ == gcand(cands@, leads@, q@, reps[a]).sid@
                &&& ev@[a].earnings_date == gcand(cands@, leads@, q@, reps[a]).date
            },
            events_described(fs, bf, ev@),
            forall|a: int, b: int| 0 <= a < b < ev@.len() ==> event_before(#[trigger] ev@[a], #[trigger] ev@[b]),
            forall|k: int| #![trigger gcand(cands@, leads@, q@, k)] 0 <= k < t ==> exists|a: int| 0 <= a < ev@.len()
                && (#[trigger] ev@[a]).security_id@ == gcand(cands@, leads@, q@, k).sid@
                && ev@[a].earnings_date == gcand(cands@, leads@, q@, k).date,
        decreases n - t,
    {
        let s = t;
        let (t1, rev, wk, Ghost(rk)) = scan_run(Ghost(fs), Ghost(bf), rows, cands, leads, counts, keys, q, s);
        t = t1;
        let c0 = &cands[leads[q[s]]];
        let e = EarningsEvent {
            security_id: string_of(&c0.sid),
            earnings_date: c0.date,
            report_timing: c0.timing.to_owned(),
            announced_at_date: c0.date,
            earnings_window: string_of(&cands[leads[q[wk]]].window),
            revision_count: rev,
            source: c0.source.to_owned(),
        };
        proof {
            if t < n {
                assert(same_sd(gcand(cands@, leads@, q@, t - 1), gcand(cands@, leads@, q@, s as int)));
            }
            lemma_run_event(fs, bf, rows@, cands@, leads@, counts@, keys@, q@, s as int, t as int, rk, wk as int, e);
            assert forall|a: int| 0 <= a < ev@.len() implies event_before(#[trigger] ev@[a], e) by {
                lemma_run_after(rows@, cands@, leads@, keys@, q@, reps[a], s as int, ev@[a], e);
            }
        }
        let ghost old_ev = ev@;
        ev.push(e);
        proof {
            reps = reps.push(s as int);
            assert(ev@[old_ev.len() as int] == e);
            assert(forall|a: int| 0 <= a < old_ev.len() ==> ev@[a] == old_ev[a]);
            assert(is_filed_event(fs, bf, ev@[old_ev.len() as int]));
            assert forall|a: int| 0 <= a < ev@.len() implies #[trigger] is_filed_event(fs, bf, ev@[a]) by {
                if a < old_ev.len() {
                    assert(is_filed_event(fs, bf, old_ev[a]));
                }
            }
            assert forall|k: int| #![trigger gcand(cands@, leads@, q@, k)] 0 <= k < t implies exists|a: int| 0 <= a < ev@.len()
                && (#[trigger] ev@[a]).security_id@ == gcand(cands@, leads@, q@, k).sid@
                && ev@[a].earnings_date == gcand(cands@, leads@, q@, k).date by {
                if k < s {
                    let a = choose|a: int| 0 <= a < old_ev.len()
                        && (#[trigger] old_ev[a]).security_id@ == gcand(cands@, leads@, q@, k).sid@
                        && old_ev[a].earnings_date == gcand(cands@, leads@, q@, k).date;
                    assert(ev@[a] == old_ev[a]);
                } else {
                    assert(same_sd(gcand(cands@, leads@, q@, k), gcand(cands@, leads@, q@, s as int)));
                }
            }
        }
    }
    proof {
        assert forall|j: int| is_period_first(fs, bf, j) implies exists|a: int| 0 <= a < ev@.len()
            && (#[trigger] ev@[a]).security_id@ == filing_sid(fs[j]) && ev@[a].earnings_date == candidate_date(fs[j], bf) by {
            let g = choose|g: int| 0 <= g < leads@.len() && rows@[leads@[g] as int] == j;
            assert(q@.contains(g as usize));
            let k = choose|k: int| 0 <= k < q@.len() && q@[k] == g as usize;
            assert(q@[k] as int == g);
            assert(leads@[g] < rows@.len());
            assert(gcand(cands@, leads@, q@, k) == gcand(cands@, leads@, q@, k));
            let a = choose|a: int| 0 <= a < ev@.len()
                && (#[trigger] ev@[a]).security_id@ == gcand(cands@, leads@, q@, k).sid@
                && ev@[a].earnings_date == gcand(cands@, leads@, q@, k).date;
        }
    }
    ev
}

/// Derives the earnings calendar from the filings; `backfill` lists EDGAR
/// accession numbers with their acceptance instants (the first entry for an
/// accession number applies) for rows without their own.
pub fn derive(filings: &Vec<FilingLite>, backfill: &Vec<(String, i64)>) -> (ev: Vec<EarningsEvent>)
    ensures
        calendar_of(filings@, backfill@, ev@),
{
    let (rows, cands) = collect_candidates(filings, backfill);
    let pkeys = build_period_keys(&rows, &cands);
    let p = sort_by_keys(&pkeys);
    let (leads, counts) = group_periods(Ghost(filings@), Ghost(backfill@), &rows, &cands, &pkeys, &p);
    let ekeys = build_event_keys(&rows, &cands, &leads);
    let q = sort_by_keys(&ekeys);
    assemble_events(Ghost(filings@), Ghost(backfill@), &rows, &cands, &leads, &counts, &ekeys, &q)
}


/// An event is led by a filing with an acceptance instant whenever any
/// filing of its period has one (the filing date is only the fallback);
/// its earnings date is the earliest date among the period's filings of
/// that kind; and only quarterly or annual reports lead events (TTM rows
/// never do).
pub proof fn law_event_date_is_the_first_announcement(fs: Seq<FilingLite>, bf: Seq<(String, i64)>, l: int, e: EarningsEvent, k: int)
    requires
        describes_event(fs, bf, l, e),
        same_period(fs, l, k),
    ensures
        candidate_ns(fs[k], bf) is Some ==> candidate_ns(fs[l], bf) is Some,
        (candidate_ns(fs[k], bf) is Some) == (candidate_ns(fs[l], bf) is Some) ==> e.earnings_date <= candidate_date(fs[k], bf),
        is_report(fs[l]),
        e.announced_at_date == e.earnings_date,
{
    reveal(describes_event);
}

/// No two events of a calendar share a (security, earnings date).
pub proof fn law_one_event_per_security_and_day(fs: Seq<FilingLite>, bf: Seq<(String, i64)>, ev: Seq<EarningsEvent>, a: int, b: int)
    requires
        calendar_of(fs, bf, ev),
        0 <= a < ev.len(),
        0 <= b < ev.len(),
        a != b,
    ensures
        !(ev[a].security_id@ == ev[b].security_id@ && ev[a].earnings_date == ev[b].earnings_date),
{
    if a < b {
        assert(event_before(ev[a], ev[b]));
        crate::text::lemma_seq_lt_irreflexive(ev[a].security_id@);
    } else {
        assert(event_before(ev[b], ev[a]));
        crate::text::lemma_seq_lt_irreflexive(ev[b].security_id@);
    }
}

/// The report timings an event can carry.
pub open spec fn is_timing_label(t: Seq<char>) -> bool {
    t == "before_open"@ || t == "during_market"@ || t == "after_close"@ || t == "unknown"@
}

/// The sources an event can carry.
pub open spec fn is_source_label(s: Seq<char>) -> bool {
    s == "acceptance"@ || s == "edgar_backfill"@ || s == "filing_date"@
}

/// Every event of a calendar: its timing is one of `before_open`,
/// `during_market`, `after_close`, `unknown`; its source is one of
/// `acceptance`, `edgar_backfill`, `filing_date`; the timing is `unknown`
/// exactly when the source is `filing_date`; it is led by a quarterly or
/// annual report of its security; it keeps the largest revision count of
/// the periods announced with it; and when any of them is a quarter (a
/// Q4 announced with its FY), its window is a quarter label.
pub proof fn law_event_fields(fs: Seq<FilingLite>, bf: Seq<(String, i64)>, ev: Seq<EarningsEvent>, a: int)
    requires
        calendar_of(fs, bf, ev),
        0 <= a < ev.len(),
    ensures
        is_timing_label(ev[a].report_timing@),
        is_source_label(ev[a].source@),
        (ev[a].report_timing@ == "unknown"@) == (ev[a].source@ == "filing_date"@),
        exists|l: int| {
            &&& #[trigger] leads_event(fs, bf, l)
            &&& is_report(fs[l])
            &&& ev[a].security_id@ == filing_sid(fs[l])
            &&& forall|j: int| #[trigger] same_event(fs, bf, l, j) ==> revisions(fs, j) <= ev[a].revision_count
            &&& (exists|j: int| #[trigger] same_event(fs, bf, l, j) && is_quarter_label(candidate_window(fs[j])))
                ==> is_quarter_label(ev[a].earnings_window@)
        },
{
    reveal(describes_event);
    assert(is_filed_event(fs, bf, ev[a]));
    let e = ev[a];
    let l = choose|l: int| describes_event(fs, bf, l, e);
    assert(describes_event(fs, bf, l, e));
    reveal_strlit("before_open");
    reveal_strlit("during_market");
    reveal_strlit("after_close");
    reveal_strlit("unknown");
    reveal_strlit("acceptance");
    reveal_strlit("edgar_backfill");
    reveal_strlit("filing_date");
    let f = fs[l];
    if candidate_ns(f, bf) is Some {
        let t = timing_label(ny_wall_clock(candidate_ns(f, bf).unwrap()).1);
        assert(is_timing_label(t));
        assert(t != "unknown"@) by {
            assert(t.len() != ("unknown"@).len());
        }
        assert(candidate_source(f, bf) != "filing_date"@) by {
            if f.acceptance_datetime_ns is Some {
                assert(("acceptance"@).len() != ("filing_date"@).len());
            } else {
                assert(("edgar_backfill"@)[0] != ("filing_date"@)[0]);
            }
        }
    }
    if exists|j: int| #[trigger] same_event(fs, bf, l, j) && is_quarter_label(candidate_window(fs[j])) {
        let j = choose|j: int| #[trigger] same_event(fs, bf, l, j) && is_quarter_label(candidate_window(fs[j]))
            && e.earnings_window@ == candidate_window(fs[j]);
        assert(is_quarter_label(e.earnings_window@));
    }
    assert(leads_event(fs, bf, l) && is_report(fs[l]));
}

/// An event dated by an acceptance instant (its source is not the filing
/// date) is timed by the New York wall clock of its lead filing's instant:
/// with `s` the seconds since local midnight, before 09:30 (`s < 34200`)
/// is `before_open`, from 09:30 to before 16:00 (`s < 57600`) is
/// `during_market`, and 16:00 or later is `after_close`; the event's date
/// is that instant's local date. An event dated by a filing date has
/// timing `unknown`.
pub proof fn law_report_timing_follows_market_hours(fs: Seq<FilingLite>, bf: Seq<(String, i64)>, ev: Seq<EarningsEvent>, a: int)
    requires
        calendar_of(fs, bf, ev),
        0 <= a < ev.len(),
    ensures
        ev[a].source@ == "filing_date"@ ==> ev[a].report_timing@ == "unknown"@,
        ev[a].source@ != "filing_date"@ ==> exists|l: int| {
            &&& #[trigger] leads_event(fs, bf, l)
            &&& ev[a].security_id@ == filing_sid(fs[l])
            &&& candidate_ns(fs[l], bf) matches Some(ns) && {
                let s = ny_wall_clock(ns).1;
                &&& ev[a].earnings_date == ny_wall_clock(ns).0
                &&& (s < 34200 ==> ev[a].report_timing@ == "before_open"@)
                &&& (34200 <= s < 57600 ==> ev[a].report_timing@ == "during_market"@)
                &&& (57600 <= s ==> ev[a].report_timing@ == "after_close"@)
            }
        },
{
    reveal(describes_event);
    assert(is_filed_event(fs, bf, ev[a]));
    let e = ev[a];
    let l = choose|l: int| describes_event(fs, bf, l, e);
    assert(describes_event(fs, bf, l, e));
    let f = fs[l];
    if candidate_ns(f, bf) is None {
        assert(e.source@ == "filing_date"@);
        assert(e.report_timing@ == "unknown"@);
    } else {
        if e.source@ == "filing_date"@ {
            reveal_strlit("acceptance");
            reveal_strlit("edgar_backfill");
            reveal_strlit("filing_date");
            if f.acceptance_datetime_ns is Some {
                assert(("acceptance"@).len() != ("filing_date"@).len());
            } else {
                assert(("edgar_backfill"@)[0] != ("filing_date"@)[0]);
            }
        }
        let ns = candidate_ns(f, bf).unwrap();
        let s = ny_wall_clock(ns).1;
        assert(s < 34200 <==> s / 60 < 9 * 60 + 30);
        assert(s < 57600 <==> s / 60 < 16 * 60);
        assert(leads_event(fs, bf, l));
    }
}

/// The backfill answers an accession number with its first entry: some
/// entry carries that number and that instant, and no earlier entry
/// carries the number; with no entry for it, there is no answer.
pub proof fn law_backfill_first_entry_wins(bf: Seq<(String, i64)>, acc: Seq<char>)
    ensures
        match backfill_lookup(bf, acc) {
            Some(ns) => exists|k: int| 0 <= k < bf.len() && (#[trigger] bf[k]).0@ == acc && bf[k].1 == ns
                && forall|m: int| 0 <= m < k ==> (#[trigger] bf[m]).0@ != acc,
            None => forall|k: int| 0 <= k < bf.len() ==> (#[trigger] bf[k]).0@ != acc,
        },
    decreases bf.len(),
{
    if bf.len() > 0 {
        let rest = bf.drop_first();
        law_backfill_first_entry_wins(rest, acc);
        if bf[0].0@ != acc {
            match backfill_lookup(rest, acc) {
                Some(ns) => {
                    let k = choose|k: int| 0 <= k < rest.len() && (#[trigger] rest[k]).0@ == acc && rest[k].1 == ns
                        && forall|m: int| 0 <= m < k ==> (#[trigger] rest[m]).0@ != acc;
                    assert(bf[k + 1] == rest[k]);
                    assert forall|m: int| 0 <= m < k + 1 implies (#[trigger] bf[m]).0@ != acc by {
                        if m > 0 { assert(bf[m] == rest[m - 1]); }
                    }
                },
                None => {
                    assert forall|k: int| 0 <= k < bf.len() implies (#[trigger] bf[k]).0@ != acc by {
                        if k > 0 { assert(bf[k] == rest[k - 1]); }
                    }
                },
            }
        }
    }
}

/// An event's source names where its lead filing's instant came from:
/// `acceptance` for the filing's own acceptance instant, `edgar_backfill`
/// for a backfilled one (the filing has none of its own), `filing_date`
/// when there is no instant; and the event date is the lead's filing
/// date exactly in the last case.
pub proof fn law_event_source(fs: Seq<FilingLite>, bf: Seq<(String, i64)>, ev: Seq<EarningsEvent>, a: int)
    requires
        calendar_of(fs, bf, ev),
        0 <= a < ev.len(),
    ensures
        exists|l: int| {
            &&& #[trigger] leads_event(fs, bf, l)
            &&& ev[a].security_id@ == filing_sid(fs[l])
            &&& (fs[l].acceptance_datetime_ns is Some ==> ev[a].source@ == "acceptance"@)
            &&& (fs[l].acceptance_datetime_ns is None && candidate_ns(fs[l], bf) is Some ==> (ev[a].source@ == "edgar_backfill"@
                && (fs[l].accession_number matches Some(acc) && backfill_lookup(bf, acc@) == candidate_ns(fs[l], bf))))
            &&& (candidate_ns(fs[l], bf) is None ==> ev[a].source@ == "filing_date"@ && ev[a].earnings_date == fs[l].filing_date)
        },
{
    reveal(describes_event);
    assert(is_filed_event(fs, bf, ev[a]));
    let e = ev[a];
    let l = choose|l: int| describes_event(fs, bf, l, e);
    assert(describes_event(fs, bf, l, e));
    assert(leads_event(fs, bf, l));
}

/// An event's revision count is the number of filings beyond the first in
/// one of the periods announced with it (as the `i32` column holds it),
/// and no period announced with it has more.
pub proof fn law_revision_count_counts_later_filings(fs: Seq<FilingLite>, bf: Seq<(String, i64)>, ev: Seq<EarningsEvent>, a: int)
    requires
        calendar_of(fs, bf, ev),
        0 <= a < ev.len(),
    ensures
        exists|l: int, j: int| #[trigger] leads_event(fs, bf, l) && #[trigger] same_event(fs, bf, l, j)
            && ev[a].revision_count == (Set::new(|k: int| same_period(fs, j, k)).len() - 1) as i32
            && forall|m: int| #[trigger] same_event(fs, bf, l, m)
                ==> (Set::new(|k: int| same_period(fs, m, k)).len() - 1) as i32 <= ev[a].revision_count,
{
    reveal(describes_event);
    assert(is_filed_event(fs, bf, ev[a]));
    let e = ev[a];
    let l = choose|l: int| describes_event(fs, bf, l, e);
    assert(describes_event(fs, bf, l, e));
    let j = choose|j: int| #[trigger] same_event(fs, bf, l, j) && e.revision_count == revisions(fs, j);
    assert(leads_event(fs, bf, l) && same_event(fs, bf, l, j));
    assert(period_members(fs, j) == Set::new(|k: int| same_period(fs, j, k)));
    assert forall|m: int| #[trigger] same_event(fs, bf, l, m)
        implies (Set::new(|k: int| same_period(fs, m, k)).len() - 1) as i32 <= e.revision_count by {
        assert(period_members(fs, m) == Set::new(|k: int| same_period(fs, m, k)));
    }
}

} // verus!
