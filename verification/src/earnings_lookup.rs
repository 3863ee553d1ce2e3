//! In-memory earnings lookup for the sweep's earnings-proximity columns.

use vstd::prelude::*;
use crate::earnings::EarningsEvent;
use crate::text::{chars_eq, chars_of};

verus! {

/// One calendar row as the lookup keeps it: security id, earnings date
/// (day number) and report timing.
pub type LookupRow = (Seq<char>, i32, Seq<char>);

/// The most recent earnings date of `sid` on or before `day`.
pub open spec fn last_on_or_before(rows: Seq<LookupRow>, sid: Seq<char>, day: i32) -> Option<i32>
    decreases rows.len(),
{
    if rows.len() == 0 {
        None
    } else {
        let rest = last_on_or_before(rows.drop_last(), sid, day);
        let r = rows.last();
        if r.0 == sid && r.1 <= day {
            match rest {
                Some(d) => Some(if d < r.1 { r.1 } else { d }),
                None => Some(r.1),
            }
        } else {
            rest
        }
    }
}

/// Index of the first row of `sid` dated `day`.
pub open spec fn first_on_day(rows: Seq<LookupRow>, sid: Seq<char>, day: i32) -> Option<int>
    decreases rows.len(),
{
    if rows.len() == 0 {
        None
    } else {
        match first_on_day(rows.drop_last(), sid, day) {
            Some(i) => Some(i),
            None => if rows.last().0 == sid && rows.last().1 == day {
                Some(rows.len() - 1)
            } else {
                None
            },
        }
    }
}

/// The distinct security ids of the rows.
pub open spec fn lookup_securities(rows: Seq<LookupRow>) -> Set<Seq<char>> {
    Set::new(|s: Seq<char>| exists|i: int| 0 <= i < rows.len() && (#[trigger] rows[i]).0 == s)
}

pub open spec fn row_of_event(e: EarningsEvent) -> LookupRow {
    (e.security_id@, e.earnings_date, e.report_timing@)
}

pub struct EarningsLookup {
    rows: Vec<(Vec<char>, i32, String)>,
    sids: Vec<Vec<char>>,
}

pub open spec fn row_view(r: (Vec<char>, i32, String)) -> LookupRow {
    (r.0@, r.1, r.2@)
}

pub open spec fn chars_view(v: Vec<char>) -> Seq<char> {
    v@
}

impl View for EarningsLookup {
    type V = Seq<LookupRow>;

    closed spec fn view(&self) -> Seq<LookupRow> {
        self.rows@.map_values(|r: (Vec<char>, i32, String)| row_view(r))
    }
}

impl EarningsLookup {
    #[verifier::type_invariant]
    spec fn wf(self) -> bool {
        let sv = self.sids@.map_values(|v: Vec<char>| chars_view(v));
        &&& sv.no_duplicates()
        &&& sv.to_set() == lookup_securities(self.rows@.map_values(|r: (Vec<char>, i32, String)| row_view(r)))
    }

    /// The lookup over `events`, in their order.
    pub fn from_events(events: &Vec<EarningsEvent>) -> (r: Self)
        ensures
            r@ == events@.map_values(|e: EarningsEvent| row_of_event(e)),
    {
        let mut rows: Vec<(Vec<char>, i32, String)> = Vec::new();
        let mut sids: Vec<Vec<char>> = Vec::new();
        let mut i: usize = 0;
        while i < events.len()
            invariant
                i <= events@.len(),
                rows@.map_values(|r: (Vec<char>, i32, String)| row_view(r))
                    == events@.take(i as int).map_values(|e: EarningsEvent| row_of_event(e)),
                sids@.map_values(|v: Vec<char>| chars_view(v)).no_duplicates(),
                sids@.map_values(|v: Vec<char>| chars_view(v)).to_set()
                    == lookup_securities(rows@.map_values(|r: (Vec<char>, i32, String)| row_view(r))),
            decreases events@.len() - i,
        {
            let e = &events[i];
            let sid = chars_of(e.security_id.as_str());
            let ghost old_rows = rows@.map_values(|r: (Vec<char>, i32, String)| row_view(r));
            let ghost old_sids = sids@.map_values(|v: Vec<char>| chars_view(v));
            let mut known = false;
            let mut k: usize = 0;
            while k < sids.len()
                invariant
                    k <= sids@.len(),
                    known == exists|m: int| 0 <= m < k && (#[trigger] sids@[m])@ == sid@,
                decreases sids@.len() - k,
            {
                if chars_eq(&sids[k], &sid) {
                    known = true;
                }
                k += 1;
            }
            rows.push((sid.clone(), e.earnings_date, e.report_timing.clone()));
            let ghost new_rows = rows@.map_values(|r: (Vec<char>, i32, String)| row_view(r));
            proof {
                assert(new_rows =~= old_rows.push((sid@, e.earnings_date, e.report_timing@)));
                assert(events@.take(i as int + 1) =~= events@.take(i as int).push(*e));
                assert(events@.take(i as int + 1).map_values(|e: EarningsEvent| row_of_event(e))
                    =~= events@.take(i as int).map_values(|e: EarningsEvent| row_of_event(e)).push(row_of_event(*e)));
            }
            if !known {
                sids.push(sid);
                proof {
                    let sv = sids@.map_values(|v: Vec<char>| chars_view(v));
                    assert(sv =~= old_sids.push(sid@));
                    assert(!old_sids.contains(sid@)) by {
                        if old_sids.contains(sid@) {
                            let m = choose|m: int| 0 <= m < old_sids.len() && old_sids[m] == sid@;
                            assert(sids@[m]@ == sid@);
                        }
                    }
                    assert(sv.no_duplicates());
                    assert(sv.to_set() =~= lookup_securities(new_rows)) by {
                        assert forall|s: Seq<char>| sv.to_set().contains(s) implies lookup_securities(new_rows).contains(s) by {
                            let m = choose|m: int| 0 <= m < sv.len() && sv[m] == s;
                            if m < old_sids.len() {
                                assert(old_sids.to_set().contains(s));
                                let j = choose|j: int| 0 <= j < old_rows.len() && (#[trigger] old_rows[j]).0 == s;
                                assert(new_rows[j] == old_rows[j]);
                            } else {
                                assert(new_rows[old_rows.len() as int].0 == s);
                            }
                        }
                        assert forall|s: Seq<char>| lookup_securities(new_rows).contains(s) implies sv.to_set().contains(s) by {
                            let j = choose|j: int| 0 <= j < new_rows.len() && (#[trigger] new_rows[j]).0 == s;
                            if j < old_rows.len() {
                                assert(old_rows[j] == new_rows[j]);
                                assert(lookup_securities(old_rows).contains(s));
                                assert(old_sids.to_set().contains(s));
                                let m = choose|m: int| 0 <= m < old_sids.len() && old_sids[m] == s;
                                assert(sv[m] == s);
                            } else {
                                assert(sv[sv.len() - 1] == s);
                            }
                        }
                    }
                }
            } else {
                proof {
                    let sv = sids@.map_values(|v: Vec<char>| chars_view(v));
                    assert(sv.to_set() =~= lookup_securities(new_rows)) by {
                        assert forall|s: Seq<char>| sv.to_set().contains(s) implies lookup_securities(new_rows).contains(s) by {
                            let j = choose|j: int| 0 <= j < old_rows.len() && (#[trigger] old_rows[j]).0 == s;
                            assert(new_rows[j] == old_rows[j]);
                        }
                        assert forall|s: Seq<char>| lookup_securities(new_rows).contains(s) implies sv.to_set().contains(s) by {
                            let j = choose|j: int| 0 <= j < new_rows.len() && (#[trigger] new_rows[j]).0 == s;
                            if j < old_rows.len() {
                                assert(old_rows[j] == new_rows[j]);
                                assert(lookup_securities(old_rows).contains(s));
                            } else {
                                let m = choose|m: int| 0 <= m < k && (#[trigger] sids@[m])@ == sid@;
                                assert(sv[m] == s);
                            }
                        }
                    }
                }
            }
            i += 1;
        }
        assert(events@.take(events@.len() as int) =~= events@);
        EarningsLookup { rows, sids }
    }

    /// Calendar days since the most recent earnings of `sid` dated on or
    /// before `day` (0 when `day` is an earnings date); `None` when there is
    /// none yet.
    pub fn days_since_last(&self, sid: &str, day: i32) -> (r: Option<i32>)
        ensures
            r == (match last_on_or_before(self@, sid@, day) {
                Some(d) => Some((day - d) as i32),
                None => None,
            }),
    {
        let key = chars_of(sid);
        let mut best: Option<i32> = None;
        let mut i: usize = 0;
        while i < self.rows.len()
            invariant
                i <= self.rows@.len(),
                key@ == sid@,
                best == last_on_or_before(self@.take(i as int), sid@, day),
            decreases self.rows@.len() - i,
        {
            let row = &self.rows[i];
            proof {
                assert(self@.take(i as int + 1).drop_last() =~= self@.take(i as int));
                assert(self@[i as int] == row_view(*row));
            }
            if chars_eq(&row.0, &key) && row.1 <= day {
                best = match best {
                    Some(d) => Some(if d < row.1 { row.1 } else { d }),
                    None => Some(row.1),
                };
            }
            i += 1;
        }
        assert(self@.take(self@.len() as int) =~= self@);
        match best {
            Some(d) => Some(((day as i64) - (d as i64)) as i32),
            None => None,
        }
    }

    /// Whether `day` is an earnings date of `sid`, with that row's report
    /// timing (the first such row).
    pub fn on_day(&self, sid: &str, day: i32) -> (r: (bool, Option<&str>))
        ensures
            match first_on_day(self@, sid@, day) {
                Some(i) => r.0 && r.1 is Some && r.1.unwrap()@ == self@[i].2,
                None => !r.0 && r.1 is None,
            },
    {
        let key = chars_of(sid);
        let mut i: usize = 0;
        while i < self.rows.len()
            invariant
                i <= self.rows@.len(),
                key@ == sid@,
                first_on_day(self@.take(i as int), sid@, day) is None,
            decreases self.rows@.len() - i,
        {
            let row = &self.rows[i];
            proof {
                assert(self@.take(i as int + 1).drop_last() =~= self@.take(i as int));
                assert(self@[i as int] == row_view(*row));
            }
            if chars_eq(&row.0, &key) && row.1 == day {
                proof {
                    lemma_first_on_day_prefix(self@, sid@, day, i as int + 1);
                }
                return (true, Some(row.2.as_str()));
            }
            i += 1;
        }
        assert(self@.take(self@.len() as int) =~= self@);
        (false, None)
    }

    /// Number of distinct securities with earnings on record.
    pub fn securities(&self) -> (r: usize)
        ensures
            r == lookup_securities(self@).len(),
    {
        proof {
            use_type_invariant(self);
            self.sids@.map_values(|v: Vec<char>| chars_view(v)).unique_seq_to_set();
        }
        self.sids.len()
    }
}

/// A first match found in a prefix is the first match overall.
proof fn lemma_first_on_day_prefix(rows: Seq<LookupRow>, sid: Seq<char>, day: i32, n: int)
    requires
        0 <= n <= rows.len(),
        first_on_day(rows.take(n), sid, day) is Some,
    ensures
        first_on_day(rows, sid, day) == first_on_day(rows.take(n), sid, day),
    decreases rows.len() - n,
{
    if n < rows.len() {
        assert(rows.take(n + 1).drop_last() =~= rows.take(n));
        lemma_first_on_day_prefix(rows, sid, day, n + 1);
    } else {
        assert(rows.take(n) =~= rows);
    }
}

/// The latest date on or before `day` is `day` itself when `day` is dated.
proof fn lemma_dated_day_is_latest(rows: Seq<LookupRow>, sid: Seq<char>, day: i32)
    requires
        first_on_day(rows, sid, day) is Some,
    ensures
        last_on_or_before(rows, sid, day) == Some(day),
    decreases rows.len(),
{
    let rest = rows.drop_last();
    if first_on_day(rest, sid, day) is Some {
        lemma_dated_day_is_latest(rest, sid, day);
    } else {
        lemma_last_on_or_before_bounded(rest, sid, day);
    }
}

proof fn lemma_last_on_or_before_bounded(rows: Seq<LookupRow>, sid: Seq<char>, day: i32)
    ensures
        last_on_or_before(rows, sid, day) matches Some(d) ==> d <= day,
    decreases rows.len(),
{
    if rows.len() > 0 {
        lemma_last_on_or_before_bounded(rows.drop_last(), sid, day);
    }
}

/// On an earnings day of a security, the days since its last earnings are
/// zero.
pub proof fn law_earnings_day_is_zero_days_since(lookup: EarningsLookup, sid: Seq<char>, day: i32)
    requires
        first_on_day(lookup@, sid, day) is Some,
    ensures
        last_on_or_before(lookup@, sid, day) == Some(day),
{
    lemma_dated_day_is_latest(lookup@, sid, day);
}

} // verus!
