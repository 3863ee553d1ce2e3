//! Cross-sectional ranks: rank 1 is the largest value. The order of the
//! values (largest first, over the finite ones) is decided where the values
//! are; this module turns that order into per-row ranks.

use vstd::prelude::*;

verus! {

/// `order` lists distinct row indices below `n`.
pub open spec fn valid_order(order: Seq<usize>, n: int) -> bool {
    &&& forall|r: int| 0 <= r < order.len() ==> (#[trigger] order[r]) < n
    &&& forall|a: int, b: int| 0 <= a < b < order.len() ==> order[a] != order[b]
}

/// Row `i`'s rank: one plus its position in `order`, or `None` when it is
/// not ranked.
pub fn ranks_from_order(n: usize, order: &Vec<usize>) -> (r: Vec<Option<i32>>)
    requires
        valid_order(order@, n as int),
        order@.len() < i32::MAX,
    ensures
        r@.len() == n,
        forall|p: int| 0 <= p < order@.len() ==> r@[order@[p] as int] == Some((p + 1) as i32),
        forall|i: int| 0 <= i < n && !order@.contains(i as usize) ==> (#[trigger] r@[i]) is None,
{
    let mut r: Vec<Option<i32>> = Vec::new();
    let mut i: usize = 0;
    while i < n
        invariant
            i <= n,
            r@.len() == i,
            forall|k: int| 0 <= k < i ==> (#[trigger] r@[k]) is None,
        decreases n - i,
    {
        r.push(None);
        i += 1;
    }
    let mut p: usize = 0;
    while p < order.len()
        invariant
            valid_order(order@, n as int),
            order@.len() < i32::MAX,
            p <= order@.len(),
            r@.len() == n,
            forall|q: int| 0 <= q < p ==> r@[order@[q] as int] == Some((q + 1) as i32),
            forall|k: int| 0 <= k < n && !order@.take(p as int).contains(k as usize) ==> (#[trigger] r@[k]) is None,
        decreases order@.len() - p,
    {
        let row = order[p];
        r.set(row, Some((p + 1) as i32));
        proof {
            assert forall|k: int| 0 <= k < n && !order@.take(p as int + 1).contains(k as usize) implies (#[trigger] r@[k]) is None by {
                if k != row {
                    if order@.take(p as int).contains(k as usize) {
                        let j = choose|j: int| 0 <= j < p && order@.take(p as int)[j] == k as usize;
                        assert(order@.take(p as int + 1)[j] == k as usize);
                    }
                } else {
                    assert(order@.take(p as int + 1)[p as int] == row);
                }
            }
        }
        p += 1;
    }
    proof {
        assert(order@.take(order@.len() as int) =~= order@);
    }
    r
}

} // verus!
