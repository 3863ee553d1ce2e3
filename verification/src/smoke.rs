//! The spot checks of the per-ticker details smoke pull: a few well-known
//! symbols must come back with the SIC code, listing day, security type
//! and descriptions they are known to have. Where a symbol occurs in
//! several rows, its last row is the one checked.

use vstd::prelude::*;
use crate::text::{chars_of, str_eq, string_of};

verus! {

/// What the spot checks read of one classified row.
#[derive(Debug, Clone)]
pub struct SmokeRow {
    pub display_symbol: String,
    pub sic_code: Option<String>,
    /// Listing day number.
    pub list_date: Option<i32>,
    pub name: Option<String>,
    pub description: Option<String>,
    pub ticker_type: Option<String>,
    pub sic_description: Option<String>,
    /// Whether the snapshot market cap exceeds one trillion dollars (the
    /// comparison is made where the `f64` cap is); `None` without a cap.
    pub market_cap_above_1t: Option<bool>,
}

/// One spot check: the symbol, what was checked, and whether it held.
#[derive(Debug, Clone)]
pub struct SmokeCheck {
    pub symbol: String,
    pub label: String,
    pub passed: bool,
}

pub open spec fn check_view(c: SmokeCheck) -> (Seq<char>, Seq<char>, bool) {
    (c.symbol@, c.label@, c.passed)
}

pub open spec fn check_views(s: Seq<SmokeCheck>) -> Seq<(Seq<char>, Seq<char>, bool)> {
    s.map_values(|c: SmokeCheck| check_view(c))
}

/// The text std's `str::to_lowercase` gives for `s` (Unicode lowercase
/// mapping, which depends on the characters alone).
pub uninterp spec fn lowercase(s: Seq<char>) -> Seq<char>;

/// std's `str::to_lowercase`. Claimed: the result is `lowercase` of the
/// input's characters; the Unicode case tables themselves are not restated.
#[verifier::external_body]
fn to_lowercase(s: &str) -> (r: String)
    ensures
        r@ == lowercase(s@),
{
    s.to_lowercase()
}

/// `n` occurs in `h` starting at `i`.
pub open spec fn occurs_at(h: Seq<char>, n: Seq<char>, i: int) -> bool {
    0 <= i && i + n.len() <= h.len() && h.subrange(i, i + n.len()) == n
}

/// `n` occurs somewhere in `h` (as `str::contains`).
pub open spec fn occurs(h: Seq<char>, n: Seq<char>) -> bool {
    exists|i: int| #[trigger] occurs_at(h, n, i)
}

fn matches_at(h: &Vec<char>, n: &Vec<char>, i: usize) -> (r: bool)
    requires
        i + n@.len() <= h@.len(),
    ensures
        r == occurs_at(h@, n@, i as int),
{
    let hlen = h.len();
    let mut j: usize = 0;
    while j < n.len()
        invariant
            hlen == h@.len(),
            j <= n@.len(),
            i + n@.len() <= h@.len(),
            forall|k: int| 0 <= k < j ==> h@[i + k] == n@[k],
        decreases n@.len() - j,
    {
        let k: usize = i + j;
        if h[k] != n[j] {
            assert(h@.subrange(i as int, i + n@.len())[j as int] != n@[j as int]);
            return false;
        }
        j += 1;
    }
    assert(h@.subrange(i as int, i + n@.len()) =~= n@);
    true
}

/// Whether `n` occurs in `h`.
pub fn text_contains(h: &str, n: &str) -> (r: bool)
    ensures
        r == occurs(h@, n@),
{
    let hs = chars_of(h);
    let ns = chars_of(n);
    if ns.len() > hs.len() {
        assert forall|i: int| !occurs_at(h@, n@, i) by {}
        return false;
    }
    let last: usize = hs.len() - ns.len();
    let mut i: usize = 0;
    while i < last
        invariant
            hs@ == h@,
            ns@ == n@,
            last == hs@.len() - ns@.len(),
            i <= last,
            forall|k: int| 0 <= k < i ==> !occurs_at(h@, n@, k),
        decreases last - i,
    {
        if matches_at(&hs, &ns, i) {
            assert(occurs_at(h@, n@, i as int));
            return true;
        }
        i += 1;
    }
    if matches_at(&hs, &ns, last) {
        assert(occurs_at(h@, n@, last as int));
        return true;
    }
    assert forall|k: int| !occurs_at(h@, n@, k) by {
        if 0 <= k && k + n@.len() <= h@.len() {
            assert(k <= last);
        }
    }
    false
}

/// Index of the last row of `sym`.
pub open spec fn last_with_symbol(rows: Seq<SmokeRow>, sym: Seq<char>) -> Option<int>
    decreases rows.len(),
{
    if rows.len() == 0 {
        None
    } else if rows.last().display_symbol@ == sym {
        Some(rows.len() - 1)
    } else {
        last_with_symbol(rows.drop_last(), sym)
    }
}

proof fn lemma_last_with_symbol_bound(rows: Seq<SmokeRow>, sym: Seq<char>)
    ensures
        last_with_symbol(rows, sym) matches Some(i) ==> 0 <= i < rows.len(),
    decreases rows.len(),
{
    if rows.len() > 0 {
        lemma_last_with_symbol_bound(rows.drop_last(), sym);
    }
}

fn find_last(rows: &Vec<SmokeRow>, sym: &str) -> (r: Option<usize>)
    ensures
        match r {
            Some(i) => last_with_symbol(rows@, sym@) == Some(i as int) && i < rows@.len(),
            None => last_with_symbol(rows@, sym@) is None,
        },
{
    let mut found: Option<usize> = None;
    let mut i: usize = 0;
    assert(rows@.take(0) =~= Seq::<SmokeRow>::empty());
    while i < rows.len()
        invariant
            i <= rows@.len(),
            match found {
                Some(k) => last_with_symbol(rows@.take(i as int), sym@) == Some(k as int) && k < i,
                None => last_with_symbol(rows@.take(i as int), sym@) is None,
            },
        decreases rows@.len() - i,
    {
        proof { lemma_last_with_symbol_bound(rows@.take(i as int), sym@); }
        assert(rows@.take(i as int + 1).drop_last() =~= rows@.take(i as int));
        assert(rows@.take(i as int + 1).last() == rows@[i as int]);
        if str_eq(rows[i].display_symbol.as_str(), sym) {
            found = Some(i);
        }
        i += 1;
    }
    assert(rows@.take(rows@.len() as int) =~= rows@);
    found
}

/// The text of an optional field, empty when absent.
pub open spec fn opt_text(o: Option<String>) -> Seq<char> {
    match o {
        Some(s) => s@,
        None => Seq::empty(),
    }
}

/// The field is present and equals `t`.
pub open spec fn text_is(o: Option<String>, t: Seq<char>) -> bool {
    o matches Some(s) && s@ == t
}

/// The lowercased `name + " " + description` mentions `3x`, `leverag`,
/// `bull` or `bear`.
pub open spec fn leveraged_hint(r: SmokeRow) -> bool {
    let b = lowercase(opt_text(r.name) + " "@ + opt_text(r.description));
    occurs(b, "3x"@) || occurs(b, "leverag"@) || occurs(b, "bull"@) || occurs(b, "bear"@)
}

/// An ADR type, or a SIC description mentioning `CHINA` or `INTERNATIONAL`.
pub open spec fn adr_like(r: SmokeRow) -> bool {
    text_is(r.ticker_type, "ADRC"@) || text_is(r.ticker_type, "ADR"@)
        || (r.sic_description matches Some(d) && (occurs(d@, "CHINA"@) || occurs(d@, "INTERNATIONAL"@)))
}

/// Day number of 1980-12-12 (AAPL's listing).
pub const AAPL_LIST_DAY: i32 = 723_161;

/// Day number of 2020-12-10 (ABNB's listing).
pub const ABNB_LIST_DAY: i32 = 737_769;

/// The AAPL checks: SIC 3571, listed 1980-12-12, cap above $1T; a single
/// failed check when AAPL is missing.
pub open spec fn aapl_checks(rows: Seq<SmokeRow>) -> Seq<(Seq<char>, Seq<char>, bool)> {
    match last_with_symbol(rows, "AAPL"@) {
        Some(i) => seq![
            ("AAPL"@, "sic_code == 3571"@, text_is(rows[i].sic_code, "3571"@)),
            ("AAPL"@, "list_date == 1980-12-12"@, rows[i].list_date == Some(AAPL_LIST_DAY)),
            ("AAPL"@, "market_cap > $1T"@, rows[i].market_cap_above_1t == Some(true)),
        ],
        None => seq![("AAPL"@, "not in result set"@, false)],
    }
}

/// The ABNB check (listed 2020-12-10), when ABNB is present.
pub open spec fn abnb_checks(rows: Seq<SmokeRow>) -> Seq<(Seq<char>, Seq<char>, bool)> {
    match last_with_symbol(rows, "ABNB"@) {
        Some(i) => seq![("ABNB"@, "list_date == 2020-12-10"@, rows[i].list_date == Some(ABNB_LIST_DAY))],
        None => seq![],
    }
}

/// The SOXL check (a leveraged hint), when SOXL is present.
pub open spec fn soxl_checks(rows: Seq<SmokeRow>) -> Seq<(Seq<char>, Seq<char>, bool)> {
    match last_with_symbol(rows, "SOXL"@) {
        Some(i) => seq![("SOXL"@, "name/description hints leveraged"@, leveraged_hint(rows[i]))],
        None => seq![],
    }
}

/// The BABA check (ADR-like), when BABA is present.
pub open spec fn baba_checks(rows: Seq<SmokeRow>) -> Seq<(Seq<char>, Seq<char>, bool)> {
    match last_with_symbol(rows, "BABA"@) {
        Some(i) => seq![("BABA"@, "ADR-like or international SIC"@, adr_like(rows[i]))],
        None => seq![],
    }
}

/// The SPY check (an ETF), when SPY is present.
pub open spec fn spy_checks(rows: Seq<SmokeRow>) -> Seq<(Seq<char>, Seq<char>, bool)> {
    match last_with_symbol(rows, "SPY"@) {
        Some(i) => seq![("SPY"@, "ticker_type == ETF"@, text_is(rows[i].ticker_type, "ETF"@))],
        None => seq![],
    }
}

/// The checks in order: AAPL, then ABNB, SOXL, BABA and SPY.
pub open spec fn spec_smoke_checks(rows: Seq<SmokeRow>) -> Seq<(Seq<char>, Seq<char>, bool)> {
    aapl_checks(rows) + abnb_checks(rows) + soxl_checks(rows) + baba_checks(rows) + spy_checks(rows)
}

/// The smoke pull passes when every check holds.
pub open spec fn smoke_passes(rows: Seq<SmokeRow>) -> bool {
    forall|k: int| 0 <= k < spec_smoke_checks(rows).len() ==> #[trigger] spec_smoke_checks(rows)[k].2
}

fn copy_str(a: &str) -> (r: String)
    ensures
        r@ == a@,
{
    let cs = chars_of(a);
    string_of(&cs)
}

fn push_check(out: &mut Vec<SmokeCheck>, symbol: &str, label: &str, passed: bool)
    ensures
        check_views(final(out)@) == check_views(old(out)@).push((symbol@, label@, passed)),
{
    out.push(SmokeCheck { symbol: copy_str(symbol), label: copy_str(label), passed });
    assert(check_views(out@) =~= check_views(old(out)@).push((symbol@, label@, passed)));
}

fn field_is(o: &Option<String>, t: &str) -> (r: bool)
    ensures
        r == text_is(*o, t@),
{
    match o {
        Some(s) => str_eq(s.as_str(), t),
        None => false,
    }
}

fn opt_chars(o: &Option<String>) -> (r: Vec<char>)
    ensures
        r@ == opt_text(*o),
{
    match o {
        Some(s) => chars_of(s.as_str()),
        None => Vec::new(),
    }
}

fn leveraged(r: &SmokeRow) -> (b: bool)
    ensures
        b == leveraged_hint(*r),
{
    let mut cs = opt_chars(&r.name);
    cs.push(' ');
    let mut d = opt_chars(&r.description);
    cs.append(&mut d);
    proof { reveal_strlit(" "); }
    assert(cs@ =~= opt_text(r.name) + " "@ + opt_text(r.description));
    let blob = string_of(&cs);
    let low = to_lowercase(blob.as_str());
    text_contains(low.as_str(), "3x") || text_contains(low.as_str(), "leverag") || text_contains(low.as_str(), "bull")
        || text_contains(low.as_str(), "bear")
}

fn adr(r: &SmokeRow) -> (b: bool)
    ensures
        b == adr_like(*r),
{
    if field_is(&r.ticker_type, "ADRC") || field_is(&r.ticker_type, "ADR") {
        return true;
    }
    match &r.sic_description {
        Some(d) => text_contains(d.as_str(), "CHINA") || text_contains(d.as_str(), "INTERNATIONAL"),
        None => false,
    }
}

fn push_aapl(out: &mut Vec<SmokeCheck>, rows: &Vec<SmokeRow>)
    ensures
        check_views(final(out)@) == check_views(old(out)@) + aapl_checks(rows@),
{
    let ghost before = check_views(out@);
    match find_last(rows, "AAPL") {
        Some(i) => {
            let r = &rows[i];
            push_check(out, "AAPL", "sic_code == 3571", field_is(&r.sic_code, "3571"));
            push_check(out, "AAPL", "list_date == 1980-12-12", r.list_date == Some(AAPL_LIST_DAY));
            let cap = match r.market_cap_above_1t {
                Some(b) => b,
                None => false,
            };
            push_check(out, "AAPL", "market_cap > $1T", cap);
        },
        None => push_check(out, "AAPL", "not in result set", false),
    }
    assert(check_views(out@) =~= before + aapl_checks(rows@));
}

fn push_abnb(out: &mut Vec<SmokeCheck>, rows: &Vec<SmokeRow>)
    ensures
        check_views(final(out)@) == check_views(old(out)@) + abnb_checks(rows@),
{
    let ghost before = check_views(out@);
    match find_last(rows, "ABNB") {
        Some(i) => push_check(out, "ABNB", "list_date == 2020-12-10", rows[i].list_date == Some(ABNB_LIST_DAY)),
        None => {},
    }
    assert(check_views(out@) =~= before + abnb_checks(rows@));
}

fn push_soxl(out: &mut Vec<SmokeCheck>, rows: &Vec<SmokeRow>)
    ensures
        check_views(final(out)@) == check_views(old(out)@) + soxl_checks(rows@),
{
    let ghost before = check_views(out@);
    match find_last(rows, "SOXL") {
        Some(i) => push_check(out, "SOXL", "name/description hints leveraged", leveraged(&rows[i])),
        None => {},
    }
    assert(check_views(out@) =~= before + soxl_checks(rows@));
}

fn push_baba(out: &mut Vec<SmokeCheck>, rows: &Vec<SmokeRow>)
    ensures
        check_views(final(out)@) == check_views(old(out)@) + baba_checks(rows@),
{
    let ghost before = check_views(out@);
    match find_last(rows, "BABA") {
        Some(i) => push_check(out, "BABA", "ADR-like or international SIC", adr(&rows[i])),
        None => {},
    }
    assert(check_views(out@) =~= before + baba_checks(rows@));
}

fn push_spy(out: &mut Vec<SmokeCheck>, rows: &Vec<SmokeRow>)
    ensures
        check_views(final(out)@) == check_views(old(out)@) + spy_checks(rows@),
{
    let ghost before = check_views(out@);
    match find_last(rows, "SPY") {
        Some(i) => push_check(out, "SPY", "ticker_type == ETF", field_is(&rows[i].ticker_type, "ETF")),
        None => {},
    }
    assert(check_views(out@) =~= before + spy_checks(rows@));
}

/// Runs the spot checks over the pulled rows.
pub fn smoke_checks(rows: &Vec<SmokeRow>) -> (r: Vec<SmokeCheck>)
    ensures
        check_views(r@) == spec_smoke_checks(rows@),
        (forall|k: int| 0 <= k < r@.len() ==> #[trigger] r@[k].passed) == smoke_passes(rows@),
{
    let mut out: Vec<SmokeCheck> = Vec::new();
    assert(check_views(out@) =~= Seq::empty());
    push_aapl(&mut out, rows);
    push_abnb(&mut out, rows);
    push_soxl(&mut out, rows);
    push_baba(&mut out, rows);
    push_spy(&mut out, rows);
    assert(check_views(out@) =~= spec_smoke_checks(rows@));
    assert forall|k: int| 0 <= k < out@.len() implies (#[trigger] out@[k].passed == spec_smoke_checks(rows@)[k].2) by {
        assert(check_views(out@)[k] == check_view(out@[k]));
    }
    out
}

/// Number of rows with a SIC code.
pub open spec fn count_with_sic(rows: Seq<SmokeRow>) -> nat
    decreases rows.len(),
{
    if rows.len() == 0 {
        0
    } else {
        count_with_sic(rows.drop_last()) + if rows.last().sic_code is Some { 1nat } else { 0nat }
    }
}

/// Number of rows with a listing day.
pub open spec fn count_with_list_date(rows: Seq<SmokeRow>) -> nat
    decreases rows.len(),
{
    if rows.len() == 0 {
        0
    } else {
        count_with_list_date(rows.drop_last()) + if rows.last().list_date is Some { 1nat } else { 0nat }
    }
}

proof fn lemma_counts_bounded(rows: Seq<SmokeRow>)
    ensures
        count_with_sic(rows) <= rows.len(),
        count_with_list_date(rows) <= rows.len(),
    decreases rows.len(),
{
    if rows.len() > 0 {
        lemma_counts_bounded(rows.drop_last());
    }
}

/// How many rows carry a SIC code and how many a listing day.
pub fn smoke_coverage(rows: &Vec<SmokeRow>) -> (r: (usize, usize))
    ensures
        r.0 == count_with_sic(rows@),
        r.1 == count_with_list_date(rows@),
{
    let mut sic: usize = 0;
    let mut listed: usize = 0;
    let mut i: usize = 0;
    assert(rows@.take(0) =~= Seq::<SmokeRow>::empty());
    while i < rows.len()
        invariant
            i <= rows@.len(),
            sic == count_with_sic(rows@.take(i as int)),
            listed == count_with_list_date(rows@.take(i as int)),
        decreases rows@.len() - i,
    {
        assert(rows@.take(i as int + 1).drop_last() =~= rows@.take(i as int));
        proof { lemma_counts_bounded(rows@.take(i as int)); }
        if rows[i].sic_code.is_some() {
            sic += 1;
        }
        if rows[i].list_date.is_some() {
            listed += 1;
        }
        i += 1;
    }
    assert(rows@.take(rows@.len() as int) =~= rows@);
    (sic, listed)
}

} // verus!
