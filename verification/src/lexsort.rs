//! Lexicographic order on integer key sequences and a verified merge sort
//! of record indices by such keys.
//!
//! Records with text fields are ordered by encoding each field into the
//! key: a text field becomes its code points plus one followed by a `0`
//! terminator, so field-wise lexicographic order (text by code point, as
//! `String`'s `Ord`) coincides with the order of the encoded keys.

use vstd::prelude::*;

verus! {

/// Strict lexicographic order on integer sequences (a proper prefix is
/// smaller).
pub open spec fn lex_lt(a: Seq<i128>, b: Seq<i128>) -> bool
    decreases a.len(),
{
    if b.len() == 0 {
        false
    } else if a.len() == 0 {
        true
    } else if a[0] != b[0] {
        a[0] < b[0]
    } else {
        lex_lt(a.drop_first(), b.drop_first())
    }
}

pub proof fn lemma_lex_irreflexive(a: Seq<i128>)
    ensures
        !lex_lt(a, a),
    decreases a.len(),
{
    if a.len() > 0 {
        lemma_lex_irreflexive(a.drop_first());
    }
}

pub proof fn lemma_lex_transitive(a: Seq<i128>, b: Seq<i128>, c: Seq<i128>)
    requires
        lex_lt(a, b),
        lex_lt(b, c),
    ensures
        lex_lt(a, c),
    decreases a.len(),
{
    if a.len() > 0 && b.len() > 0 && c.len() > 0 {
        if a[0] == b[0] && b[0] == c[0] {
            lemma_lex_transitive(a.drop_first(), b.drop_first(), c.drop_first());
        }
    }
}

pub proof fn lemma_lex_total(a: Seq<i128>, b: Seq<i128>)
    requires
        a != b,
    ensures
        lex_lt(a, b) || lex_lt(b, a),
    decreases a.len(),
{
    if a.len() > 0 && b.len() > 0 && a[0] == b[0] {
        if a.drop_first() == b.drop_first() {
            assert(a =~= seq![a[0]] + a.drop_first());
            assert(b =~= seq![b[0]] + b.drop_first());
        }
        lemma_lex_total(a.drop_first(), b.drop_first());
    } else if a.len() == 0 && b.len() == 0 {
        assert(a =~= b);
    }
}

/// A key lying between two keys that share a prefix shares it too.
pub proof fn lemma_lex_between_shares_prefix(a: Seq<i128>, b: Seq<i128>, c: Seq<i128>, n: int)
    requires
        lex_lt(a, b) || a == b,
        lex_lt(b, c) || b == c,
        0 <= n <= a.len(),
        n <= c.len(),
        a.take(n) == c.take(n),
    ensures
        n <= b.len(),
        b.take(n) == a.take(n),
    decreases n,
{
    if n > 0 {
        if a == b || b == c {
            if b == c {
                assert(b.take(n) =~= c.take(n));
            }
        } else {
            assert(a[0] == a.take(n)[0] && c[0] == c.take(n)[0]);
            if b.len() == 0 {
                assert(false);
            }
            assert(a[0] <= b[0] && b[0] <= c[0]);
            assert(a.drop_first().take(n - 1) =~= a.take(n).drop_first());
            assert(c.drop_first().take(n - 1) =~= c.take(n).drop_first());
            lemma_lex_between_shares_prefix(a.drop_first(), b.drop_first(), c.drop_first(), n - 1);
            assert(b.take(n) =~= seq![b[0]] + b.drop_first().take(n - 1));
            assert(a.take(n) =~= seq![a[0]] + a.drop_first().take(n - 1));
        }
    } else {
        assert(b.take(0) =~= a.take(0));
    }
}

/// `lex_lt(a, b)` on vectors.
pub fn lex_less(a: &Vec<i128>, b: &Vec<i128>) -> (r: bool)
    ensures
        r == lex_lt(a@, b@),
{
    let mut i: usize = 0;
    assert(a@.skip(0) =~= a@);
    assert(b@.skip(0) =~= b@);
    while i < a.len() && i < b.len()
        invariant
            i <= a@.len(),
            i <= b@.len(),
            lex_lt(a@, b@) == lex_lt(a@.skip(i as int), b@.skip(i as int)),
        decreases a@.len() - i,
    {
        if a[i] != b[i] {
            assert(a@.skip(i as int)[0] == a@[i as int]);
            assert(b@.skip(i as int)[0] == b@[i as int]);
            return a[i] < b[i];
        }
        assert(a@.skip(i as int).drop_first() =~= a@.skip(i as int + 1));
        assert(b@.skip(i as int).drop_first() =~= b@.skip(i as int + 1));
        i += 1;
    }
    i < b.len()
}

/// `p` lists `lo..hi` exactly once each.
pub open spec fn is_index_perm(p: Seq<usize>, lo: int, hi: int) -> bool {
    &&& p.len() == hi - lo
    &&& p.no_duplicates()
    &&& forall|k: int| 0 <= k < p.len() ==> lo <= #[trigger] p[k] < hi
    &&& forall|v: usize| lo <= v < hi ==> #[trigger] p.contains(v)
}

/// `p` visits keys in strictly increasing order.
pub open spec fn sorted_by_keys(keys: Seq<Vec<i128>>, p: Seq<usize>) -> bool {
    forall|i: int, j: int| 0 <= i < j < p.len() ==> lex_lt(#[trigger] keys[p[i] as int]@, #[trigger] keys[p[j] as int]@)
}

/// No two keys are equal.
pub open spec fn distinct_keys(keys: Seq<Vec<i128>>) -> bool {
    forall|i: int, j: int| 0 <= i < keys.len() && 0 <= j < keys.len() && i != j ==> #[trigger] keys[i]@ != #[trigger] keys[j]@
}

/// Indices `lo..hi` of `keys` in increasing key order.
pub fn sort_range(keys: &Vec<Vec<i128>>, lo: usize, hi: usize) -> (r: Vec<usize>)
    requires
        lo <= hi <= keys@.len(),
        distinct_keys(keys@),
    ensures
        is_index_perm(r@, lo as int, hi as int),
        sorted_by_keys(keys@, r@),
    decreases hi - lo,
{
    if hi - lo <= 1 {
        let mut v: Vec<usize> = Vec::new();
        if hi > lo {
            v.push(lo);
            assert(v@[0] == lo);
        }
        return v;
    }
    let mid = lo + (hi - lo) / 2;
    let a = sort_range(keys, lo, mid);
    let b = sort_range(keys, mid, hi);
    merge(keys, &a, &b, lo, mid, hi)
}

fn merge(keys: &Vec<Vec<i128>>, a: &Vec<usize>, b: &Vec<usize>, lo: usize, mid: usize, hi: usize) -> (r: Vec<usize>)
    requires
        lo <= mid <= hi <= keys@.len(),
        distinct_keys(keys@),
        is_index_perm(a@, lo as int, mid as int),
        is_index_perm(b@, mid as int, hi as int),
        sorted_by_keys(keys@, a@),
        sorted_by_keys(keys@, b@),
    ensures
        is_index_perm(r@, lo as int, hi as int),
        sorted_by_keys(keys@, r@),
{
    let mut out: Vec<usize> = Vec::new();
    let mut i: usize = 0;
    let mut j: usize = 0;
    while i < a.len() || j < b.len()
        invariant
            lo <= mid <= hi <= keys@.len(),
            distinct_keys(keys@),
            is_index_perm(a@, lo as int, mid as int),
            is_index_perm(b@, mid as int, hi as int),
            sorted_by_keys(keys@, a@),
            sorted_by_keys(keys@, b@),
            i <= a@.len(),
            j <= b@.len(),
            out@.len() == i + j,
            out@.no_duplicates(),
            forall|k: int| 0 <= k < out@.len() ==> lo <= #[trigger] out@[k] < hi,
            forall|k: int| 0 <= k < i ==> out@.contains(#[trigger] a@[k]),
            forall|k: int| 0 <= k < j ==> out@.contains(#[trigger] b@[k]),
            sorted_by_keys(keys@, out@),
            forall|k: int, m: int| 0 <= k < out@.len() && i <= m < a@.len() ==> lex_lt(#[trigger] keys@[out@[k] as int]@, #[trigger] keys@[a@[m] as int]@),
            forall|k: int, m: int| 0 <= k < out@.len() && j <= m < b@.len() ==> lex_lt(#[trigger] keys@[out@[k] as int]@, #[trigger] keys@[b@[m] as int]@),
        decreases a@.len() + b@.len() - i - j,
    {
        let take_a = if i < a.len() && j < b.len() {
            lex_less(&keys[a[i]], &keys[b[j]])
        } else {
            i < a.len()
        };
        let x = if take_a { a[i] } else { b[j] };
        proof {
            if i < a@.len() && j < b@.len() {
                if !take_a {
                    assert(a@[i as int] != b@[j as int]);
                    lemma_lex_total(keys@[a@[i as int] as int]@, keys@[b@[j as int] as int]@);
                }
            }
            // x is below every element still waiting in a and b.
            assert forall|m: int| (if take_a { i + 1 } else { i as int }) <= m < a@.len() implies lex_lt(keys@[x as int]@, #[trigger] keys@[a@[m] as int]@) by {
                if take_a {
                } else {
                    if m > i {
                        lemma_lex_transitive(keys@[x as int]@, keys@[a@[i as int] as int]@, keys@[a@[m] as int]@);
                    }
                }
            }
            assert forall|m: int| (if take_a { j as int } else { j + 1 }) <= m < b@.len() implies lex_lt(keys@[x as int]@, #[trigger] keys@[b@[m] as int]@) by {
                if take_a {
                    if m > j {
                        lemma_lex_transitive(keys@[x as int]@, keys@[b@[j as int] as int]@, keys@[b@[m] as int]@);
                    }
                }
            }
            // x has not been emitted yet.
            if out@.contains(x) {
                let k = choose|k: int| 0 <= k < out@.len() && out@[k] == x;
                if take_a {
                    lemma_lex_irreflexive(keys@[x as int]@);
                    assert(lex_lt(keys@[out@[k] as int]@, keys@[a@[i as int] as int]@));
                } else {
                    lemma_lex_irreflexive(keys@[x as int]@);
                    assert(lex_lt(keys@[out@[k] as int]@, keys@[b@[j as int] as int]@));
                }
            }
        }
        let ghost old_out = out@;
        out.push(x);
        if take_a {
            i += 1;
        } else {
            j += 1;
        }
        proof {
            assert(out@ =~= old_out.push(x));
            assert forall|k: int| 0 <= k < i implies out@.contains(#[trigger] a@[k]) by {
                if take_a && k == i - 1 {
                    assert(out@[out@.len() - 1] == a@[k]);
                } else {
                    let w = choose|w: int| 0 <= w < old_out.len() && old_out[w] == a@[k];
                    assert(out@[w] == a@[k]);
                }
            }
            assert forall|k: int| 0 <= k < j implies out@.contains(#[trigger] b@[k]) by {
                if !take_a && k == j - 1 {
                    assert(out@[out@.len() - 1] == b@[k]);
                } else {
                    let w = choose|w: int| 0 <= w < old_out.len() && old_out[w] == b@[k];
                    assert(out@[w] == b@[k]);
                }
            }
        }
    }
    proof {
        assert forall|v: usize| lo <= v < hi implies out@.contains(v) by {
            if v < mid {
                assert(a@.contains(v));
                let k = choose|k: int| 0 <= k < a@.len() && a@[k] == v;
            } else {
                assert(b@.contains(v));
                let k = choose|k: int| 0 <= k < b@.len() && b@[k] == v;
            }
        }
    }
    out
}

/// Indices of `keys` in increasing key order.
pub fn sort_by_keys(keys: &Vec<Vec<i128>>) -> (r: Vec<usize>)
    requires
        distinct_keys(keys@),
    ensures
        is_index_perm(r@, 0, keys@.len() as int),
        sorted_by_keys(keys@, r@),
{
    sort_range(keys, 0, keys.len())
}

} // verus!

verus! {

/// Key encoding of a text field: code points plus one, then a `0`.
pub open spec fn enc_text(s: Seq<char>) -> Seq<i128> {
    Seq::new(s.len(), |k: int| ((s[k] as u32) + 1) as i128).push(0)
}

/// The key value of a character: its code point plus one (never `0`).
pub proof fn lemma_char_code(c: char)
    ensures
        ((c as u32) + 1) as i128 == (c as u32) + 1,
        ((c as u32) + 1) as i128 >= 1,
{
}

/// Distinct characters have distinct key values.
pub proof fn lemma_char_code_injective(c: char, d: char)
    requires
        ((c as u32) + 1) as i128 == ((d as u32) + 1) as i128,
    ensures
        c == d,
{
    lemma_char_code(c);
    lemma_char_code(d);
    assert((c as u32) == (d as u32));
}

/// Appends the encoding of a text field to a key.
pub fn push_text(key: &mut Vec<i128>, s: &Vec<char>)
    ensures
        final(key)@ == old(key)@ + enc_text(s@),
{
    let ghost start = key@;
    let mut i: usize = 0;
    while i < s.len()
        invariant
            i <= s@.len(),
            key@ == start + Seq::new(i as nat, |k: int| ((s@[k] as u32) + 1) as i128),
        decreases s@.len() - i,
    {
        let c = s[i];
        key.push((c as u32) as i128 + 1);
        assert(Seq::new((i + 1) as nat, |k: int| ((s@[k] as u32) + 1) as i128)
            =~= Seq::new(i as nat, |k: int| ((s@[k] as u32) + 1) as i128).push(((s@[i as int] as u32) + 1) as i128));
        i += 1;
    }
    key.push(0);
    assert(key@ =~= start + enc_text(s@));
}

/// A key that starts with the encoding of `b` encodes `b` in its first field
/// only if the field is `b` (the encoding is prefix-free).
pub proof fn lemma_enc_text_prefix(a: Seq<char>, r: Seq<i128>, b: Seq<char>)
    requires
        (enc_text(a) + r).len() >= enc_text(b).len(),
        (enc_text(a) + r).take(enc_text(b).len() as int) == enc_text(b),
    ensures
        a == b,
{
    let x = enc_text(a) + r;
    let eb = enc_text(b);
    assert forall|k: int| 0 <= k < b.len() && k < a.len() implies a[k] == b[k] by {
        assert(x.take(eb.len() as int)[k] == eb[k]);
        assert(x[k] == ((a[k] as u32) + 1) as i128);
        assert(eb[k] == ((b[k] as u32) + 1) as i128);
        lemma_char_code_injective(a[k], b[k]);
    }
    if a.len() < b.len() {
        assert(x.take(eb.len() as int)[a.len() as int] == eb[a.len() as int]);
        assert(x[a.len() as int] == 0);
        lemma_char_code(b[a.len() as int]);
    } else if a.len() > b.len() {
        assert(x.take(eb.len() as int)[b.len() as int] == eb[b.len() as int]);
        assert(eb[b.len() as int] == 0);
        lemma_char_code(a[b.len() as int]);
    }
    assert(a =~= b);
}

/// Comparing keys that agree on a prefix compares what follows it.
pub proof fn lemma_lex_common_prefix(p: Seq<i128>, x: Seq<i128>, y: Seq<i128>)
    ensures
        lex_lt(p + x, p + y) == lex_lt(x, y),
    decreases p.len(),
{
    if p.len() > 0 {
        assert((p + x).drop_first() =~= p.drop_first() + x);
        assert((p + y).drop_first() =~= p.drop_first() + y);
        lemma_lex_common_prefix(p.drop_first(), x, y);
    } else {
        assert(p + x =~= x);
        assert(p + y =~= y);
    }
}

/// Between keys whose first text fields differ, key order is the code-point
/// order of those fields.
pub proof fn lemma_lex_enc_text(a: Seq<char>, r1: Seq<i128>, b: Seq<char>, r2: Seq<i128>)
    requires
        a != b,
    ensures
        lex_lt(enc_text(a) + r1, enc_text(b) + r2) == crate::text::seq_lt(a, b),
    decreases a.len(),
{
    let x = enc_text(a) + r1;
    let y = enc_text(b) + r2;
    assert(x.len() > 0 && y.len() > 0);
    if a.len() == 0 {
        assert(x[0] == 0);
        if b.len() == 0 {
            assert(a =~= b);
        } else {
            assert(y[0] == ((b[0] as u32) + 1) as i128);
            lemma_char_code(b[0]);
            assert(x[0] != y[0] && x[0] < y[0]);
            assert(lex_lt(x, y));
        }
    } else if b.len() == 0 {
        assert(y[0] == 0);
        assert(x[0] == ((a[0] as u32) + 1) as i128);
        lemma_char_code(a[0]);
        assert(x[0] != y[0] && !(x[0] < y[0]));
        assert(!lex_lt(x, y));
    } else {
        assert(x[0] == ((a[0] as u32) + 1) as i128);
        assert(y[0] == ((b[0] as u32) + 1) as i128);
        lemma_char_code(a[0]);
        lemma_char_code(b[0]);
        if a[0] == b[0] {
            assert(x.drop_first() =~= enc_text(a.drop_first()) + r1);
            assert(y.drop_first() =~= enc_text(b.drop_first()) + r2);
            if a.drop_first() == b.drop_first() {
                assert(a =~= seq![a[0]] + a.drop_first());
                assert(b =~= seq![b[0]] + b.drop_first());
            }
            lemma_lex_enc_text(a.drop_first(), r1, b.drop_first(), r2);
            assert(lex_lt(x, y) == lex_lt(x.drop_first(), y.drop_first()));
        } else {
            if (a[0] as u32) == (b[0] as u32) {
                lemma_char_code_injective(a[0], b[0]);
            }
            assert(x[0] != y[0]);
            assert(lex_lt(x, y) == (x[0] < y[0]));
            assert(crate::text::seq_lt(a, b) == ((a[0] as u32) < (b[0] as u32)));
        }
    }
}

} // verus!
