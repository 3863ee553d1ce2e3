//! The EDGAR acceptance backfill: which filings need an acceptance instant,
//! what a CIK's submissions listing says about each accession number, and
//! the backfill rows that result.
//!
//! A CIK's listing is kept as the entries in the order they were read; a
//! later entry for the same accession number overrides an earlier one, as
//! a map insert would.

use vstd::prelude::*;
use vstd::arithmetic::power2::pow2;
use crate::dates::{chrono_rfc3339_ns, rfc3339_ns};
use crate::lexsort::{
    enc_text, is_index_perm, lemma_lex_common_prefix, lemma_lex_enc_text, lex_lt, push_text, sort_by_keys,
    sorted_by_keys, distinct_keys,
};
use crate::text::{chars_of, lemma_seq_lt_transitive, seq_lt, str_eq};

verus! {

/// One submission of a CIK's EDGAR listing.
#[derive(Debug, Clone)]
pub struct SubmissionEntry {
    pub accession: String,
    /// Acceptance instant, UTC nanoseconds.
    pub acceptance_ns: i64,
    pub form: Option<String>,
}

/// The entries read from the first `k` positions of a listing's parallel
/// columns: positions whose acceptance text parses as RFC 3339, in order.
pub open spec fn parsed_upto(accs: Seq<String>, times: Seq<String>, forms: Seq<String>, k: nat) -> Seq<SubmissionEntry>
    decreases k,
{
    if k == 0 {
        Seq::empty()
    } else {
        let i = k - 1;
        let prev = parsed_upto(accs, times, forms, (k - 1) as nat);
        match chrono_rfc3339_ns(times[i]@) {
            Some(ns) => prev.push(SubmissionEntry { accession: accs[i], acceptance_ns: ns, form: Some(forms[i]) }),
            None => prev,
        }
    }
}

/// Length of the shortest of three columns (they are read pairwise, as a
/// zip does).
pub open spec fn zip_len(a: nat, b: nat, c: nat) -> nat {
    if a <= b && a <= c { a } else if b <= c { b } else { c }
}

/// Appends what a listing's columns say: each accession number with its
/// parsed acceptance instant and form, skipping unparseable instants.
pub fn add_submissions(entries: &mut Vec<SubmissionEntry>, accs: &Vec<String>, times: &Vec<String>, forms: &Vec<String>)
    ensures
        final(entries)@ == old(entries)@ + parsed_upto(accs@, times@, forms@, zip_len(accs@.len(), times@.len(), forms@.len())),
{
    let n = if accs.len() <= times.len() && accs.len() <= forms.len() {
        accs.len()
    } else if times.len() <= forms.len() {
        times.len()
    } else {
        forms.len()
    };
    let ghost start = entries@;
    let mut k: usize = 0;
    while k < n
        invariant
            n == zip_len(accs@.len(), times@.len(), forms@.len()),
            n <= accs@.len() && n <= times@.len() && n <= forms@.len(),
            k <= n,
            entries@ == start + parsed_upto(accs@, times@, forms@, k as nat),
        decreases n - k,
    {
        let parsed = rfc3339_ns(times[k].as_str());
        match parsed {
            Some(ns) => {
                entries.push(SubmissionEntry { accession: accs[k].clone(), acceptance_ns: ns, form: Some(forms[k].clone()) });
            },
            None => {},
        }
        proof {
            assert(parsed_upto(accs@, times@, forms@, (k + 1) as nat) == (match chrono_rfc3339_ns(times@[k as int]@) {
                Some(ns) => parsed_upto(accs@, times@, forms@, k as nat).push(
                    SubmissionEntry { accession: accs@[k as int], acceptance_ns: ns, form: Some(forms@[k as int]) },
                ),
                None => parsed_upto(accs@, times@, forms@, k as nat),
            }));
        }
        k += 1;
    }
}

// ---------------------------------------------------------------------------
// Throttling of the submissions endpoint
// ---------------------------------------------------------------------------

/// First wait after a 429 answer.
pub const SEC_INITIAL_BACKOFF_MS: u64 = 1_000;

/// Largest wait still taken; past it the fetch fails.
pub const SEC_MAX_BACKOFF_MS: u64 = 16_000;

/// After a non-success answer `status` with the current backoff: on a 429
/// while the backoff is at most `SEC_MAX_BACKOFF_MS`, wait the backoff and
/// double it (`Some((wait, next))`); otherwise give up (`None`).
pub open spec fn sec_retry_spec(status: u16, backoff_ms: u64) -> Option<(u64, u64)> {
    if status == 429 && backoff_ms <= SEC_MAX_BACKOFF_MS {
        Some((backoff_ms, (2 * backoff_ms) as u64))
    } else {
        None
    }
}

pub fn sec_retry(status: u16, backoff_ms: u64) -> (r: Option<(u64, u64)>)
    ensures
        r == sec_retry_spec(status, backoff_ms),
{
    if status == 429 && backoff_ms <= SEC_MAX_BACKOFF_MS {
        Some((backoff_ms, 2 * backoff_ms))
    } else {
        None
    }
}

/// The backoff after `k` throttled answers.
pub open spec fn sec_backoff_after(k: nat) -> int {
    SEC_INITIAL_BACKOFF_MS * pow2(k)
}

/// A CIK is retried after at most five throttled answers: the `k`-th 429
/// (counting from 0) is waited out exactly when `k <= 4`, and the waits
/// double from one second.
pub proof fn law_sec_retries_at_most_five(k: nat)
    requires
        sec_backoff_after(k) <= u64::MAX,
    ensures
        (sec_retry_spec(429, sec_backoff_after(k) as u64) is Some) <==> k <= 4,
        k <= 4 ==> sec_retry_spec(429, sec_backoff_after(k) as u64) == Some(
            (sec_backoff_after(k) as u64, sec_backoff_after(k + 1) as u64),
        ),
{
    vstd::arithmetic::power2::lemma2_to64();
    vstd::arithmetic::power2::lemma_pow2_unfold(k + 1);
    if k >= 5 {
        if k > 5 {
            vstd::arithmetic::power2::lemma_pow2_strictly_increases(5, k);
        }
        assert(pow2(k) >= 32);
        assert(sec_backoff_after(k) >= 32_000) by (nonlinear_arith)
            requires
                pow2(k) >= 32,
                sec_backoff_after(k) == 1_000 * pow2(k),
        ;
    } else {
        assert(pow2(k) <= 16);
    }
}

/// The entry that holds for `acc`: the last one read for it.
pub open spec fn lookup(entries: Seq<SubmissionEntry>, acc: Seq<char>) -> Option<SubmissionEntry>
    decreases entries.len(),
{
    if entries.len() == 0 {
        None
    } else if entries.last().accession@ == acc {
        Some(entries.last())
    } else {
        lookup(entries.drop_last(), acc)
    }
}

/// What a later part of a listing says about an accession number overrides
/// what an earlier part said; where the later part is silent, the earlier
/// part holds.
pub proof fn law_later_entries_win(earlier: Seq<SubmissionEntry>, later: Seq<SubmissionEntry>, acc: Seq<char>)
    ensures
        lookup(earlier + later, acc) == (match lookup(later, acc) {
            Some(e) => Some(e),
            None => lookup(earlier, acc),
        }),
    decreases later.len(),
{
    if later.len() == 0 {
        assert(earlier + later =~= earlier);
    } else {
        assert((earlier + later).drop_last() =~= earlier + later.drop_last());
        assert((earlier + later).last() == later.last());
        law_later_entries_win(earlier, later.drop_last(), acc);
    }
}

/// The entry that holds for `acc`.
pub fn find_submission<'a>(entries: &'a Vec<SubmissionEntry>, acc: &str) -> (r: Option<&'a SubmissionEntry>)
    ensures
        match lookup(entries@, acc@) {
            Some(e) => r == Some(&e),
            None => r is None,
        },
{
    let mut k: usize = entries.len();
    proof {
        assert(entries@.take(k as int) =~= entries@);
    }
    while k > 0
        invariant
            k <= entries@.len(),
            lookup(entries@, acc@) == lookup(entries@.take(k as int), acc@),
        decreases k,
    {
        let ghost pre = entries@.take(k as int);
        proof {
            assert(pre.drop_last() =~= entries@.take(k - 1));
        }
        if str_eq(entries[k - 1].accession.as_str(), acc) {
            return Some(&entries[k - 1]);
        }
        k -= 1;
    }
    proof {
        assert(entries@.take(0).len() == 0);
    }
    None
}

/// One row of the acceptance backfill table.
#[derive(Debug, Clone)]
pub struct BackfillRow {
    pub cik: String,
    pub accession_number: String,
    pub acceptance_datetime_ns: i64,
    pub form: Option<String>,
    pub source: String,
}

/// Value of the `source` column of every backfill row.
pub const BACKFILL_SOURCE: &'static str = "sec_edgar_submissions";

/// A backfill row by its values: cik, accession number, instant, form and
/// source.
pub type RowView = (Seq<char>, Seq<char>, i64, Option<Seq<char>>, Seq<char>);

pub open spec fn opt_view(o: Option<String>) -> Option<Seq<char>> {
    match o {
        Some(s) => Some(s@),
        None => None,
    }
}

pub open spec fn row_view(r: BackfillRow) -> RowView {
    (r.cik@, r.accession_number@, r.acceptance_datetime_ns, opt_view(r.form), r.source@)
}

pub open spec fn row_views(rows: Seq<BackfillRow>) -> Seq<RowView> {
    Seq::new(rows.len(), |i: int| row_view(rows[i]))
}

/// The listing fetched for `cik`, if it was fetched (the last one read for
/// it).
pub open spec fn listing_of(fetched: Seq<(String, Vec<SubmissionEntry>)>, cik: Seq<char>) -> Option<Seq<SubmissionEntry>>
    decreases fetched.len(),
{
    if fetched.len() == 0 {
        None
    } else if fetched.last().0@ == cik {
        Some(fetched.last().1@)
    } else {
        listing_of(fetched.drop_last(), cik)
    }
}

/// The rows for one CIK's needed accession numbers, in their order: those
/// its listing holds.
pub open spec fn rows_for(cik: Seq<char>, accs: Seq<String>, listing: Option<Seq<SubmissionEntry>>) -> Seq<RowView>
    decreases accs.len(),
{
    if accs.len() == 0 {
        Seq::empty()
    } else {
        let prev = rows_for(cik, accs.drop_last(), listing);
        let acc = accs.last()@;
        match listing {
            Some(es) => match lookup(es, acc) {
                Some(e) => prev.push((cik, acc, e.acceptance_ns, opt_view(e.form), BACKFILL_SOURCE@)),
                None => prev,
            },
            None => prev,
        }
    }
}

/// The rows for every needed `(cik, accession numbers)` group, in order.
pub open spec fn backfill_rows(needed: Seq<(String, Vec<String>)>, fetched: Seq<(String, Vec<SubmissionEntry>)>) -> Seq<RowView>
    decreases needed.len(),
{
    if needed.len() == 0 {
        Seq::empty()
    } else {
        let g = needed.last();
        backfill_rows(needed.drop_last(), fetched) + rows_for(g.0@, g.1@, listing_of(fetched, g.0@))
    }
}

/// Number of needed accession numbers.
pub open spec fn target_count(needed: Seq<(String, Vec<String>)>) -> int
    decreases needed.len(),
{
    if needed.len() == 0 {
        0
    } else {
        target_count(needed.drop_last()) + needed.last().1@.len()
    }
}

/// The backfill rows with their tallies.
pub struct Backfill {
    pub rows: Vec<BackfillRow>,
    /// Needed accession numbers that a listing held.
    pub found: usize,
    /// Needed accession numbers left without an instant.
    pub missing: usize,
}

proof fn lemma_target_count_nonneg(needed: Seq<(String, Vec<String>)>)
    ensures
        target_count(needed) >= 0,
    decreases needed.len(),
{
    if needed.len() > 0 {
        lemma_target_count_nonneg(needed.drop_last());
    }
}

proof fn lemma_rows_for_len(cik: Seq<char>, accs: Seq<String>, listing: Option<Seq<SubmissionEntry>>)
    ensures
        rows_for(cik, accs, listing).len() <= accs.len(),
    decreases accs.len(),
{
    if accs.len() > 0 {
        lemma_rows_for_len(cik, accs.drop_last(), listing);
    }
}

proof fn lemma_backfill_len(needed: Seq<(String, Vec<String>)>, fetched: Seq<(String, Vec<SubmissionEntry>)>)
    ensures
        backfill_rows(needed, fetched).len() <= target_count(needed),
    decreases needed.len(),
{
    if needed.len() > 0 {
        lemma_backfill_len(needed.drop_last(), fetched);
        let g = needed.last();
        lemma_rows_for_len(g.0@, g.1@, listing_of(fetched, g.0@));
    }
}

/// The listing fetched for `cik`.
fn find_listing<'a>(fetched: &'a Vec<(String, Vec<SubmissionEntry>)>, cik: &str) -> (r: Option<&'a Vec<SubmissionEntry>>)
    ensures
        match listing_of(fetched@, cik@) {
            Some(es) => r matches Some(v) && v@ == es,
            None => r is None,
        },
{
    let mut k: usize = fetched.len();
    proof {
        assert(fetched@.take(k as int) =~= fetched@);
    }
    while k > 0
        invariant
            k <= fetched@.len(),
            listing_of(fetched@, cik@) == listing_of(fetched@.take(k as int), cik@),
        decreases k,
    {
        let ghost pre = fetched@.take(k as int);
        proof {
            assert(pre.drop_last() =~= fetched@.take(k - 1));
        }
        if str_eq(fetched[k - 1].0.as_str(), cik) {
            return Some(&fetched[k - 1].1);
        }
        k -= 1;
    }
    proof {
        assert(fetched@.take(0).len() == 0);
    }
    None
}

fn clone_opt(o: &Option<String>) -> (r: Option<String>)
    ensures
        opt_view(r) == opt_view(*o),
{
    match o {
        Some(s) => Some(s.clone()),
        None => None,
    }
}

/// Builds the backfill: for each needed group in order and each of its
/// accession numbers in order, a row when the CIK's listing holds the
/// accession number; the others are tallied as missing.
pub fn assemble_backfill(needed: &Vec<(String, Vec<String>)>, fetched: &Vec<(String, Vec<SubmissionEntry>)>) -> (r: Backfill)
    requires
        target_count(needed@) <= usize::MAX,
    ensures
        row_views(r.rows@) == backfill_rows(needed@, fetched@),
        r.found == r.rows@.len(),
        r.found + r.missing == target_count(needed@),
{
    let mut rows: Vec<BackfillRow> = Vec::new();
    let mut missing: usize = 0;
    let mut i: usize = 0;
    while i < needed.len()
        invariant
            i <= needed@.len(),
            target_count(needed@) <= usize::MAX,
            row_views(rows@) == backfill_rows(needed@.take(i as int), fetched@),
            rows@.len() + missing == target_count(needed@.take(i as int)),
        decreases needed@.len() - i,
    {
        let ghost pre = needed@.take(i as int);
        let ghost nxt = needed@.take(i as int + 1);
        proof {
            assert(nxt.drop_last() =~= pre);
            assert(nxt.last() == needed@[i as int]);
            lemma_take_count_le(needed@, i as int + 1);
        }
        let cik = &needed[i].0;
        let accs = &needed[i].1;
        let listing = find_listing(fetched, cik.as_str());
        let ghost base = row_views(rows@);
        let ghost base_missing = missing;
        proof {
            assert(target_count(nxt) == target_count(pre) + accs@.len());
            assert(accs@.take(0) =~= Seq::<String>::empty());
            assert(base + rows_for(cik@, accs@.take(0), listing_of(fetched@, cik@)) =~= base);
        }
        let mut j: usize = 0;
        while j < accs.len()
            invariant
                j <= accs@.len(),
                accs@ == needed@[i as int].1@,
                cik@ == needed@[i as int].0@,
                match listing_of(fetched@, cik@) {
                    Some(es) => listing matches Some(v) && v@ == es,
                    None => listing is None,
                },
                row_views(rows@) == base + rows_for(cik@, accs@.take(j as int), listing_of(fetched@, cik@)),
                rows@.len() + missing == base.len() + base_missing + j,
                base.len() + base_missing + accs@.len() <= usize::MAX,
            decreases accs@.len() - j,
        {
            let ghost tj = accs@.take(j as int);
            let ghost tj1 = accs@.take(j as int + 1);
            proof {
                assert(tj1.drop_last() =~= tj);
                assert(tj1.last() == accs@[j as int]);
            }
            let acc = &accs[j];
            let mut hit = false;
            match listing {
                Some(es) => {
                    match find_submission(es, acc.as_str()) {
                        Some(e) => {
                            let ghost before = rows@;
                            rows.push(BackfillRow {
                                cik: cik.clone(),
                                accession_number: acc.clone(),
                                acceptance_datetime_ns: e.acceptance_ns,
                                form: clone_opt(&e.form),
                                source: BACKFILL_SOURCE.to_owned(),
                            });
                            hit = true;
                            proof {
                                assert(row_views(rows@) =~= row_views(before).push(row_view(rows@.last())));
                            }
                        },
                        None => {},
                    }
                },
                None => {},
            }
            if !hit {
                missing += 1;
            }
            j += 1;
        }
        proof {
            assert(accs@.take(accs@.len() as int) =~= accs@);
            assert(backfill_rows(nxt, fetched@) == backfill_rows(pre, fetched@) + rows_for(cik@, accs@, listing_of(fetched@, cik@)));
        }
        i += 1;
    }
    proof {
        assert(needed@.take(needed@.len() as int) =~= needed@);
    }
    Backfill { found: rows.len(), rows, missing }
}

proof fn lemma_take_count_le(needed: Seq<(String, Vec<String>)>, k: int)
    requires
        0 <= k <= needed.len(),
    ensures
        target_count(needed.take(k)) <= target_count(needed),
        target_count(needed.take(k)) >= 0,
    decreases needed.len() - k,
{
    lemma_target_count_nonneg(needed.take(k));
    if k < needed.len() {
        lemma_take_count_le(needed, k + 1);
        let t = needed.take(k + 1);
        assert(t.drop_last() =~= needed.take(k));
    } else {
        assert(needed.take(k) =~= needed);
    }
}

// ---------------------------------------------------------------------------
// Needed accession numbers, grouped by CIK
// ---------------------------------------------------------------------------

/// `(cik, accession)` occurs among `pairs`.
pub open spec fn has_pair(pairs: Seq<(String, String)>, c: Seq<char>, a: Seq<char>) -> bool {
    exists|k: int| 0 <= k < pairs.len() && (#[trigger] pairs[k]).0@ == c && pairs[k].1@ == a
}

/// Some group holds `(cik, accession)`.
pub open spec fn in_groups(groups: Seq<(String, Vec<String>)>, c: Seq<char>, a: Seq<char>) -> bool {
    exists|g: int, l: int|
        0 <= g < groups.len() && 0 <= l < groups[g].1@.len() && groups[g].0@ == c && (#[trigger] groups[g].1@[l])@ == a
}

/// CIKs in increasing order, each group non-empty with its accession
/// numbers in increasing order, and every entry one of `pairs`.
pub open spec fn ordered_groups(pairs: Seq<(String, String)>, groups: Seq<(String, Vec<String>)>) -> bool {
    &&& forall|g: int, h: int| 0 <= g < h < groups.len() ==> seq_lt(#[trigger] groups[g].0@, #[trigger] groups[h].0@)
    &&& forall|g: int| 0 <= g < groups.len() ==> (#[trigger] groups[g]).1@.len() > 0
    &&& forall|g: int, k: int, l: int|
        0 <= g < groups.len() && 0 <= k < l < groups[g].1@.len() ==> seq_lt((#[trigger] groups[g].1@[k])@, (#[trigger] groups[g].1@[l])@)
    &&& forall|g: int, l: int|
        0 <= g < groups.len() && 0 <= l < groups[g].1@.len() ==> has_pair(pairs, groups[g].0@, (#[trigger] groups[g].1@[l])@)
}

/// `groups` is `pairs` grouped by CIK: ordered groups that hold every pair
/// (each once, as the orders are strict).
pub open spec fn grouped_targets(pairs: Seq<(String, String)>, groups: Seq<(String, Vec<String>)>) -> bool {
    &&& ordered_groups(pairs, groups)
    &&& forall|k: int| 0 <= k < pairs.len() ==> in_groups(groups, (#[trigger] pairs[k]).0@, pairs[k].1@)
}

/// Sort key of pair `k`: its CIK, its accession number, its position.
pub open spec fn pair_key(pairs: Seq<(String, String)>, k: int) -> Seq<i128> {
    (enc_text(pairs[k].0@) + enc_text(pairs[k].1@)).push(k as i128)
}

fn pair_keys(pairs: &Vec<(String, String)>) -> (keys: Vec<Vec<i128>>)
    ensures
        keys@.len() == pairs@.len(),
        forall|k: int| 0 <= k < pairs@.len() ==> (#[trigger] keys@[k])@ == pair_key(pairs@, k),
        distinct_keys(keys@),
{
    let mut keys: Vec<Vec<i128>> = Vec::new();
    let mut k: usize = 0;
    while k < pairs.len()
        invariant
            k <= pairs@.len(),
            keys@.len() == k,
            forall|j: int| 0 <= j < k ==> (#[trigger] keys@[j])@ == pair_key(pairs@, j),
        decreases pairs@.len() - k,
    {
        let mut key: Vec<i128> = Vec::new();
        push_text(&mut key, &chars_of(pairs[k].0.as_str()));
        push_text(&mut key, &chars_of(pairs[k].1.as_str()));
        key.push(k as i128);
        assert(key@ =~= pair_key(pairs@, k as int));
        keys.push(key);
        k += 1;
    }
    assert forall|a: int, b: int| 0 <= a < keys@.len() && 0 <= b < keys@.len() && a != b implies #[trigger] keys@[a]@ != #[trigger] keys@[b]@ by {
        let ka = keys@[a]@;
        let kb = keys@[b]@;
        assert(ka[ka.len() - 1] == a as i128);
        assert(kb[kb.len() - 1] == b as i128);
    }
    keys
}

/// Consecutive keys in sorted order: a differing CIK is larger; with the
/// same CIK, a differing accession number is larger.
proof fn lemma_next_pair(pairs: Seq<(String, String)>, i: int, j: int)
    requires
        0 <= i < pairs.len(),
        0 <= j < pairs.len(),
        lex_lt(pair_key(pairs, i), pair_key(pairs, j)),
    ensures
        pairs[i].0@ != pairs[j].0@ ==> seq_lt(pairs[i].0@, pairs[j].0@),
        pairs[i].0@ == pairs[j].0@ && pairs[i].1@ != pairs[j].1@ ==> seq_lt(pairs[i].1@, pairs[j].1@),
{
    let (ci, ai) = (pairs[i].0@, pairs[i].1@);
    let (cj, aj) = (pairs[j].0@, pairs[j].1@);
    let ri = enc_text(ai).push(i as i128);
    let rj = enc_text(aj).push(j as i128);
    assert(pair_key(pairs, i) =~= enc_text(ci) + ri);
    assert(pair_key(pairs, j) =~= enc_text(cj) + rj);
    if ci != cj {
        lemma_lex_enc_text(ci, ri, cj, rj);
    } else if ai != aj {
        lemma_lex_common_prefix(enc_text(ci), ri, rj);
        assert(ri =~= enc_text(ai) + seq![i as i128]);
        assert(rj =~= enc_text(aj) + seq![j as i128]);
        lemma_lex_enc_text(ai, seq![i as i128], aj, seq![j as i128]);
    }
}

/// The needed `(cik, accession)` pairs grouped by CIK, CIKs and accession
/// numbers each in increasing order and without repeats.
pub fn group_targets(pairs: &Vec<(String, String)>) -> (r: Vec<(String, Vec<String>)>)
    ensures
        grouped_targets(pairs@, r@),
{
    let keys = pair_keys(pairs);
    let p = sort_by_keys(&keys);
    let mut groups: Vec<(String, Vec<String>)> = Vec::new();
    let mut t: usize = 0;
    while t < p.len()
        invariant
            keys@.len() == pairs@.len(),
            forall|k: int| 0 <= k < pairs@.len() ==> (#[trigger] keys@[k])@ == pair_key(pairs@, k),
            is_index_perm(p@, 0, keys@.len() as int),
            sorted_by_keys(keys@, p@),
            t <= p@.len(),
            ordered_groups(pairs@, groups@),
            forall|u: int| 0 <= u < t ==> in_groups(groups@, pairs@[#[trigger] p@[u] as int].0@, pairs@[p@[u] as int].1@),
            t == 0 <==> groups@.len() == 0,
            t > 0 ==> groups@.last().0@ == pairs@[p@[t - 1] as int].0@
                && groups@.last().1@.last()@ == pairs@[p@[t - 1] as int].1@,
        decreases p@.len() - t,
    {
        let idx = p[t];
        let c = &pairs[idx].0;
        let a = &pairs[idx].1;
        let ghost old_groups = groups@;
        proof {
            assert(has_pair(pairs@, c@, a@)) by {
                assert(pairs@[idx as int].0@ == c@);
            }
            if t > 0 {
                let prev = p@[t - 1] as int;
                assert(lex_lt(keys@[prev]@, keys@[idx as int]@));
                lemma_next_pair(pairs@, prev, idx as int);
            }
        }
        let n = groups.len();
        let same_cik = n > 0 && str_eq(groups[n - 1].0.as_str(), c.as_str());
        if same_cik {
            let m = groups[n - 1].1.len();
            if str_eq(groups[n - 1].1[m - 1].as_str(), a.as_str()) {
                proof {
                    assert(in_groups(groups@, c@, a@)) by {
                        assert(groups@[n - 1].1@[m - 1]@ == a@);
                    }
                }
            } else {
                let (gc, mut gv) = groups.pop().unwrap();
                proof {
                    assert(old_groups[n - 1] == (gc, gv));
                }
                gv.push(a.clone());
                groups.push((gc, gv));
                proof {
                    let ng = groups@;
                    assert(forall|g: int| 0 <= g < n - 1 ==> #[trigger] ng[g] == old_groups[g]);
                    assert(forall|l: int| 0 <= l < m ==> #[trigger] ng[n - 1].1@[l] == old_groups[n - 1].1@[l]);
                    assert(ng[n - 1].1@[m as int]@ == a@);
                    assert forall|g: int, k: int, l: int|
                        0 <= g < ng.len() && 0 <= k < l < ng[g].1@.len() implies seq_lt((#[trigger] ng[g].1@[k])@, (#[trigger] ng[g].1@[l])@) by {
                        if g == n - 1 && l == m {
                            if k < m - 1 {
                                lemma_seq_lt_transitive(ng[g].1@[k]@, old_groups[n - 1].1@[m - 1]@, a@);
                            }
                        }
                    }
                    assert forall|g: int, l: int|
                        0 <= g < ng.len() && 0 <= l < ng[g].1@.len() implies has_pair(pairs@, ng[g].0@, (#[trigger] ng[g].1@[l])@) by {
                        if !(g == n - 1 && l == m) {
                            assert(old_groups[g].1@[l] == ng[g].1@[l]);
                        }
                    }
                    assert forall|u: int| 0 <= u < t + 1 implies in_groups(ng, pairs@[#[trigger] p@[u] as int].0@, pairs@[p@[u] as int].1@) by {
                        if u < t {
                            let w = choose|g: int, l: int|
                                0 <= g < old_groups.len() && 0 <= l < old_groups[g].1@.len() && old_groups[g].0@ == pairs@[p@[u] as int].0@
                                && (#[trigger] old_groups[g].1@[l])@ == pairs@[p@[u] as int].1@;
                            assert(ng[w.0].1@[w.1] == old_groups[w.0].1@[w.1]);
                        } else {
                            assert(ng[n - 1].1@[m as int]@ == a@);
                        }
                    }
                }
            }
        } else {
            let mut v: Vec<String> = Vec::new();
            v.push(a.clone());
            groups.push((c.clone(), v));
            proof {
                let ng = groups@;
                assert(forall|g: int| 0 <= g < n ==> #[trigger] ng[g] == old_groups[g]);
                assert(ng[n as int].1@[0]@ == a@);
                assert forall|g: int, h: int| 0 <= g < h < ng.len() implies seq_lt(#[trigger] ng[g].0@, #[trigger] ng[h].0@) by {
                    if h == n && g < n - 1 {
                        lemma_seq_lt_transitive(ng[g].0@, old_groups[n - 1].0@, c@);
                    }
                }
                assert forall|g: int, l: int|
                    0 <= g < ng.len() && 0 <= l < ng[g].1@.len() implies has_pair(pairs@, ng[g].0@, (#[trigger] ng[g].1@[l])@) by {
                    if g < n {
                        assert(old_groups[g].1@[l] == ng[g].1@[l]);
                    }
                }
                assert forall|u: int| 0 <= u < t + 1 implies in_groups(ng, pairs@[#[trigger] p@[u] as int].0@, pairs@[p@[u] as int].1@) by {
                    if u < t {
                        let w = choose|g: int, l: int|
                            0 <= g < old_groups.len() && 0 <= l < old_groups[g].1@.len() && old_groups[g].0@ == pairs@[p@[u] as int].0@
                            && (#[trigger] old_groups[g].1@[l])@ == pairs@[p@[u] as int].1@;
                        assert(ng[w.0].1@[w.1] == old_groups[w.0].1@[w.1]);
                    } else {
                        assert(ng[n as int].1@[0]@ == a@);
                    }
                }
            }
        }
        t += 1;
    }
    proof {
        assert forall|k: int| 0 <= k < pairs@.len() implies in_groups(groups@, (#[trigger] pairs@[k]).0@, pairs@[k].1@) by {
            assert(p@.contains(k as usize));
            let u = choose|u: int| 0 <= u < p@.len() && p@[u] == k as usize;
            assert(in_groups(groups@, pairs@[p@[u] as int].0@, pairs@[p@[u] as int].1@));
        }
    }
    groups
}

} // verus!
