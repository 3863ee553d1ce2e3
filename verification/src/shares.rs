//! Point-in-time share counts: the latest filed count of a security as of a
//! day. A count is public from its filing day; filings of one day order by
//! count. Counts are positive `f64`s carried by their bit patterns, which
//! order as the counts do.

use vstd::prelude::*;
use crate::text::{chars_eq, chars_of};

verus! {

/// One filing's share count as the lookup reads it.
#[derive(Debug, Clone)]
pub struct ShareFiling {
    pub security_id: Option<String>,
    pub ticker: String,
    /// Filing day number.
    pub filing_day: i32,
    /// Bit pattern of the basic average share count; `None` when the filing
    /// has no positive count.
    pub shares_bits: Option<u64>,
}

/// A kept filing: security key, filing day, count bits.
pub type ShareRow = (Seq<char>, i32, u64);

/// A filing is keyed by its security id, else by its ticker.
pub open spec fn filing_key(f: ShareFiling) -> Seq<char> {
    match f.security_id {
        Some(s) => s@,
        None => f.ticker@,
    }
}

/// The filings with a count, in order.
pub open spec fn share_rows(fs: Seq<ShareFiling>) -> Seq<ShareRow>
    decreases fs.len(),
{
    if fs.len() == 0 {
        Seq::empty()
    } else {
        let f = fs.last();
        let rest = share_rows(fs.drop_last());
        match f.shares_bits {
            Some(b) => rest.push((filing_key(f), f.filing_day, b)),
            None => rest,
        }
    }
}

/// `(day, bits)` order: by filing day, then by count.
pub open spec fn filed_before(a: (i32, u64), b: (i32, u64)) -> bool {
    a.0 < b.0 || (a.0 == b.0 && a.1 < b.1)
}

/// Row `r` is a filing of `sid` public on `day`.
pub open spec fn public_on(r: ShareRow, sid: Seq<char>, day: i32) -> bool {
    r.0 == sid && r.1 <= day
}

/// The latest `(day, bits)` of `sid` public on `day`.
pub open spec fn latest_public(rows: Seq<ShareRow>, sid: Seq<char>, day: i32) -> Option<(i32, u64)>
    decreases rows.len(),
{
    if rows.len() == 0 {
        None
    } else {
        let rest = latest_public(rows.drop_last(), sid, day);
        let r = rows.last();
        if public_on(r, sid, day) {
            match rest {
                Some(p) => Some(if filed_before(p, (r.1, r.2)) { (r.1, r.2) } else { p }),
                None => Some((r.1, r.2)),
            }
        } else {
            rest
        }
    }
}

/// The distinct security keys of the rows.
pub open spec fn share_securities(rows: Seq<ShareRow>) -> Set<Seq<char>> {
    Set::new(|s: Seq<char>| exists|i: int| 0 <= i < rows.len() && (#[trigger] rows[i]).0 == s)
}

pub open spec fn row_view(r: (Vec<char>, i32, u64)) -> ShareRow {
    (r.0@, r.1, r.2)
}

pub open spec fn chars_view(v: Vec<char>) -> Seq<char> {
    v@
}

pub struct SharesLookup {
    rows: Vec<(Vec<char>, i32, u64)>,
    sids: Vec<Vec<char>>,
}

impl View for SharesLookup {
    type V = Seq<ShareRow>;

    closed spec fn view(&self) -> Seq<ShareRow> {
        self.rows@.map_values(|r: (Vec<char>, i32, u64)| row_view(r))
    }
}

proof fn lemma_securities_push(old_rows: Seq<ShareRow>, row: ShareRow, old_sids: Seq<Seq<char>>, known: bool)
    requires
        old_sids.no_duplicates(),
        old_sids.to_set() == share_securities(old_rows),
        known == old_sids.contains(row.0),
    ensures
        ({
            let sv = if known { old_sids } else { old_sids.push(row.0) };
            &&& sv.no_duplicates()
            &&& sv.to_set() == share_securities(old_rows.push(row))
        }),
{
    let new_rows = old_rows.push(row);
    let sv = if known { old_sids } else { old_sids.push(row.0) };
    assert forall|s: Seq<char>| sv.to_set().contains(s) implies share_securities(new_rows).contains(s) by {
        let m = choose|m: int| 0 <= m < sv.len() && sv[m] == s;
        if m < old_sids.len() {
            assert(old_sids[m] == s);
            assert(old_sids.to_set().contains(s));
            let j = choose|j: int| 0 <= j < old_rows.len() && (#[trigger] old_rows[j]).0 == s;
            assert(new_rows[j] == old_rows[j]);
        } else {
            assert(new_rows[old_rows.len() as int].0 == s);
        }
    }
    assert forall|s: Seq<char>| share_securities(new_rows).contains(s) implies sv.to_set().contains(s) by {
        let j = choose|j: int| 0 <= j < new_rows.len() && (#[trigger] new_rows[j]).0 == s;
        if j < old_rows.len() {
            assert(old_rows[j] == new_rows[j]);
            assert(share_securities(old_rows).contains(s));
            assert(old_sids.to_set().contains(s));
            let m = choose|m: int| 0 <= m < old_sids.len() && old_sids[m] == s;
            assert(sv[m] == s);
        } else if known {
            let m = choose|m: int| 0 <= m < old_sids.len() && old_sids[m] == row.0;
            assert(sv[m] == s);
        } else {
            assert(sv[sv.len() - 1] == s);
        }
    }
    assert(sv.to_set() =~= share_securities(new_rows));
}

impl SharesLookup {
    #[verifier::type_invariant]
    spec fn wf(self) -> bool {
        let sv = self.sids@.map_values(|v: Vec<char>| chars_view(v));
        &&& sv.no_duplicates()
        &&& sv.to_set() == share_securities(self.rows@.map_values(|r: (Vec<char>, i32, u64)| row_view(r)))
    }

    /// The lookup over the filings that carry a count, in file order.
    pub fn from_filings(filings: &Vec<ShareFiling>) -> (r: Self)
        ensures
            r@ == share_rows(filings@),
    {
        let mut rows: Vec<(Vec<char>, i32, u64)> = Vec::new();
        let mut sids: Vec<Vec<char>> = Vec::new();
        let mut i: usize = 0;
        assert(filings@.take(0) =~= Seq::<ShareFiling>::empty());
        assert(sids@.map_values(|v: Vec<char>| chars_view(v)).to_set() =~= share_securities(
            rows@.map_values(|r: (Vec<char>, i32, u64)| row_view(r)),
        ));
        while i < filings.len()
            invariant
                i <= filings@.len(),
                rows@.map_values(|r: (Vec<char>, i32, u64)| row_view(r)) == share_rows(filings@.take(i as int)),
                sids@.map_values(|v: Vec<char>| chars_view(v)).no_duplicates(),
                sids@.map_values(|v: Vec<char>| chars_view(v)).to_set()
                    == share_securities(rows@.map_values(|r: (Vec<char>, i32, u64)| row_view(r))),
            decreases filings@.len() - i,
        {
            let f = &filings[i];
            assert(filings@.take(i as int + 1).drop_last() =~= filings@.take(i as int));
            assert(filings@.take(i as int + 1).last() == *f);
            if let Some(bits) = f.shares_bits {
                let sid = match &f.security_id {
                    Some(s) => chars_of(s.as_str()),
                    None => chars_of(f.ticker.as_str()),
                };
                let ghost old_rows = rows@.map_values(|r: (Vec<char>, i32, u64)| row_view(r));
                let ghost old_sids = sids@.map_values(|v: Vec<char>| chars_view(v));
                let mut known = false;
                let mut k: usize = 0;
                while k < sids.len()
                    invariant
                        k <= sids@.len(),
                        old_sids == sids@.map_values(|v: Vec<char>| chars_view(v)),
                        known == exists|m: int| 0 <= m < k && (#[trigger] sids@[m])@ == sid@,
                    decreases sids@.len() - k,
                {
                    if chars_eq(&sids[k], &sid) {
                        known = true;
                    }
                    k += 1;
                }
                proof {
                    if known {
                        let m = choose|m: int| 0 <= m < k && (#[trigger] sids@[m])@ == sid@;
                        assert(old_sids[m] == sid@);
                    } else {
                        assert forall|m: int| 0 <= m < old_sids.len() implies old_sids[m] != sid@ by {
                            assert(sids@[m]@ == old_sids[m]);
                        }
                    }
                    lemma_securities_push(old_rows, (sid@, f.filing_day, bits), old_sids, known);
                }
                rows.push((sid.clone(), f.filing_day, bits));
                assert(rows@.map_values(|r: (Vec<char>, i32, u64)| row_view(r))
                    =~= old_rows.push((sid@, f.filing_day, bits)));
                if !known {
                    sids.push(sid);
                    assert(sids@.map_values(|v: Vec<char>| chars_view(v)) =~= old_sids.push(sid@));
                }
            }
            i += 1;
        }
        assert(filings@.take(filings@.len() as int) =~= filings@);
        SharesLookup { rows, sids }
    }

    /// Bits of the latest count of `sid` filed on or before `day` (the
    /// largest on that filing day); `None` before its first filing.
    pub fn as_of(&self, sid: &str, day: i32) -> (r: Option<u64>)
        ensures
            r == (match latest_public(self@, sid@, day) {
                Some(p) => Some(p.1),
                None => None,
            }),
    {
        let key = chars_of(sid);
        let mut best: Option<(i32, u64)> = None;
        let mut i: usize = 0;
        while i < self.rows.len()
            invariant
                i <= self.rows@.len(),
                key@ == sid@,
                best == latest_public(self@.take(i as int), sid@, day),
            decreases self.rows@.len() - i,
        {
            let row = &self.rows[i];
            proof {
                assert(self@.take(i as int + 1).drop_last() =~= self@.take(i as int));
                assert(self@[i as int] == row_view(*row));
            }
            if chars_eq(&row.0, &key) && row.1 <= day {
                best = match best {
                    Some(p) => Some(if p.0 < row.1 || (p.0 == row.1 && p.1 < row.2) { (row.1, row.2) } else { p }),
                    None => Some((row.1, row.2)),
                };
            }
            i += 1;
        }
        assert(self@.take(self@.len() as int) =~= self@);
        match best {
            Some(p) => Some(p.1),
            None => None,
        }
    }

    /// Number of distinct securities with a filed count.
    pub fn securities(&self) -> (r: usize)
        ensures
            r == share_securities(self@).len(),
    {
        proof {
            use_type_invariant(self);
            self.sids@.map_values(|v: Vec<char>| chars_view(v)).unique_seq_to_set();
        }
        self.sids.len()
    }
}

proof fn lemma_latest_public(rows: Seq<ShareRow>, sid: Seq<char>, day: i32)
    ensures
        match latest_public(rows, sid, day) {
            None => forall|k: int| 0 <= k < rows.len() ==> !public_on(#[trigger] rows[k], sid, day),
            Some(p) => {
                &&& exists|k: int| 0 <= k < rows.len() && public_on(#[trigger] rows[k], sid, day) && (rows[k].1, rows[k].2) == p
                &&& forall|k: int| 0 <= k < rows.len() && public_on(#[trigger] rows[k], sid, day)
                    ==> !filed_before(p, (rows[k].1, rows[k].2))
            },
        },
    decreases rows.len(),
{
    if rows.len() > 0 {
        let rest = rows.drop_last();
        lemma_latest_public(rest, sid, day);
        assert forall|k: int| 0 <= k < rest.len() implies rest[k] == rows[k] by {}
        match latest_public(rest, sid, day) {
            Some(p) => {
                let k = choose|k: int| 0 <= k < rest.len() && public_on(#[trigger] rest[k], sid, day) && (rest[k].1, rest[k].2) == p;
                assert(rows[k] == rest[k]);
            },
            None => {},
        }
        assert(rows[rows.len() - 1] == rows.last());
    }
}

/// What a lookup answers is the latest public filing: a filing of the
/// security on or before the day, with no such filing later in
/// (filing day, count) order; and nothing before its first filing.
pub proof fn law_as_of_is_latest_public_filing(rows: Seq<ShareRow>, sid: Seq<char>, day: i32)
    ensures
        latest_public(rows, sid, day) is None <==> forall|k: int| 0 <= k < rows.len() ==> !public_on(#[trigger] rows[k], sid, day),
        latest_public(rows, sid, day) matches Some(p) ==> {
            &&& exists|k: int| 0 <= k < rows.len() && public_on(#[trigger] rows[k], sid, day) && (rows[k].1, rows[k].2) == p
            &&& forall|k: int| 0 <= k < rows.len() && public_on(#[trigger] rows[k], sid, day)
                ==> !filed_before(p, (rows[k].1, rows[k].2))
        },
{
    lemma_latest_public(rows, sid, day);
}

} // verus!
