//! Binary searches over strictly increasing integer sequences.

use vstd::prelude::*;

verus! {

/// Strictly increasing (hence duplicate-free).
pub open spec fn strictly_sorted(s: Seq<i32>) -> bool {
    forall|i: int, j: int| 0 <= i < j < s.len() ==> s[i] < s[j]
}

/// First index whose element is `>= key` (`s.len()` when none is).
pub fn lower_bound(s: &[i32], key: i32) -> (r: usize)
    requires
        strictly_sorted(s@),
    ensures
        r <= s@.len(),
        forall|i: int| 0 <= i < r ==> s@[i] < key,
        forall|i: int| r <= i < s@.len() ==> s@[i] >= key,
{
    let mut lo: usize = 0;
    let mut hi: usize = s.len();
    while lo < hi
        invariant
            lo <= hi <= s@.len(),
            strictly_sorted(s@),
            forall|i: int| 0 <= i < lo ==> s@[i] < key,
            forall|i: int| hi <= i < s@.len() ==> s@[i] >= key,
        decreases hi - lo,
    {
        let mid = lo + (hi - lo) / 2;
        if s[mid] < key {
            lo = mid + 1;
        } else {
            hi = mid;
        }
    }
    lo
}

/// First index whose element is `> key` (`s.len()` when none is).
pub fn upper_bound(s: &[i32], key: i32) -> (r: usize)
    requires
        strictly_sorted(s@),
    ensures
        r <= s@.len(),
        forall|i: int| 0 <= i < r ==> s@[i] <= key,
        forall|i: int| r <= i < s@.len() ==> s@[i] > key,
{
    let mut lo: usize = 0;
    let mut hi: usize = s.len();
    while lo < hi
        invariant
            lo <= hi <= s@.len(),
            strictly_sorted(s@),
            forall|i: int| 0 <= i < lo ==> s@[i] <= key,
            forall|i: int| hi <= i < s@.len() ==> s@[i] > key,
        decreases hi - lo,
    {
        let mid = lo + (hi - lo) / 2;
        if s[mid] <= key {
            lo = mid + 1;
        } else {
            hi = mid;
        }
    }
    lo
}

/// Inserts `key` into a strictly increasing vector unless present.
pub fn insert_sorted(v: &mut Vec<i32>, key: i32)
    requires
        strictly_sorted(old(v)@),
    ensures
        strictly_sorted(final(v)@),
        forall|x: i32| #[trigger] final(v)@.contains(x) <==> (old(v)@.contains(x) || x == key),
{
    let idx = lower_bound(v.as_slice(), key);
    if idx < v.len() && v[idx] == key {
        assert(v@[idx as int] == key);
        return;
    }
    let ghost before = v@;
    v.insert(idx, key);
    assert forall|x: i32| #[trigger] v@.contains(x) <==> (old(v)@.contains(x) || x == key) by {
        if v@.contains(x) {
            let k = choose|k: int| 0 <= k < v@.len() && v@[k] == x;
            if k < idx {
                assert(before[k] == x);
            } else if k > idx {
                assert(before[k - 1] == x);
            }
        }
        if before.contains(x) {
            let k = choose|k: int| 0 <= k < before.len() && before[k] == x;
            if k < idx {
                assert(v@[k] == x);
            } else {
                assert(v@[k + 1] == x);
            }
        }
        if x == key {
            assert(v@[idx as int] == key);
        }
    }
}

} // verus!
