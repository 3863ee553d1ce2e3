//! Session windows over a security's time-sorted 1-minute bars: half-open
//! slices by time and the grouping of a window's bars into fixed-width
//! buckets anchored at the window start. Times are UTC nanoseconds.

use vstd::prelude::*;
use crate::dates::{et, ny_local_to_utc_ns};

verus! {

pub open spec fn nondecreasing(s: Seq<i64>) -> bool {
    forall|a: int, b: int| 0 <= a <= b < s.len() ==> s[a] <= s[b]
}

/// Number of times before `t` (in a sorted sequence: the first index at or
/// after `t`).
pub fn partition_before(times: &[i64], t: i64) -> (r: usize)
    requires
        nondecreasing(times@),
    ensures
        r <= times@.len(),
        forall|k: int| 0 <= k < r ==> times@[k] < t,
        forall|k: int| r <= k < times@.len() ==> times@[k] >= t,
{
    let mut lo: usize = 0;
    let mut hi: usize = times.len();
    while lo < hi
        invariant
            lo <= hi <= times@.len(),
            nondecreasing(times@),
            forall|k: int| 0 <= k < lo ==> times@[k] < t,
            forall|k: int| hi <= k < times@.len() ==> times@[k] >= t,
        decreases hi - lo,
    {
        let mid = lo + (hi - lo) / 2;
        if times[mid] < t {
            lo = mid + 1;
        } else {
            hi = mid;
        }
    }
    lo
}

/// Index range `[lo, hi)` of the bars with `start <= t < end`.
pub fn slice_bounds(times: &[i64], start: i64, end: i64) -> (r: (usize, usize))
    requires
        nondecreasing(times@),
    ensures
        r.0 <= times@.len(),
        r.1 <= times@.len(),
        forall|k: int| 0 <= k < times@.len() ==> (times@[k] < start <==> k < r.0),
        forall|k: int| 0 <= k < times@.len() ==> (times@[k] < end <==> k < r.1),
        start <= end ==> r.0 <= r.1,
{
    let lo = partition_before(times, start);
    let hi = partition_before(times, end);
    if start <= end && lo > hi {
        assert(times@[hi as int] < start);
        assert(times@[hi as int] >= end);
    }
    (lo, hi)
}

/// Nanoseconds per minute.
pub const NS_PER_MIN: i64 = 60_000_000_000;

/// Bucket of a bar `d` nanoseconds after the window start (`d >= 0`): whole
/// minutes elapsed divided by the bucket width.
pub open spec fn bucket_of(d: int, width_min: int) -> int {
    (d / NS_PER_MIN as int) / width_min
}

/// A run of consecutive bars of one bucket.
#[derive(Debug, Clone, Copy, PartialEq, Eq)]
pub struct BucketRun {
    /// The bucket's start time.
    pub bucket_start: i64,
    /// First and last bar index of the run.
    pub first: usize,
    pub last: usize,
}

pub open spec fn bucket_at(times: Seq<i64>, start: i64, width_min: i64, i: int) -> int {
    bucket_of(times[i] - start, width_min as int)
}

/// `runs` splits `0..n` into maximal runs of equal bucket, in order.
pub open spec fn runs_ok(times: Seq<i64>, start: i64, width_min: i64, runs: Seq<BucketRun>, n: int) -> bool {
    &&& n == 0 <==> runs.len() == 0
    &&& runs.len() > 0 ==> runs[0].first == 0 && runs[runs.len() - 1].last == n - 1
    &&& forall|k: int| 0 <= k < runs.len() ==> {
        &&& (#[trigger] runs[k]).first <= runs[k].last < n
        &&& runs[k].bucket_start == start + bucket_at(times, start, width_min, runs[k].first as int) * width_min * NS_PER_MIN
        &&& forall|i: int| runs[k].first <= i <= runs[k].last ==>
            #[trigger] bucket_at(times, start, width_min, i) == bucket_at(times, start, width_min, runs[k].first as int)
    }
    &&& forall|k: int| 0 <= k < runs.len() - 1 ==> {
        &&& (#[trigger] runs[k + 1]).first == runs[k].last + 1
        &&& bucket_at(times, start, width_min, runs[k + 1].first as int) != bucket_at(times, start, width_min, runs[k].last as int)
    }
}

/// Groups a window's bars (all at or after `start`, and with bucket start
/// times representable) into runs of equal `width_min`-minute bucket.
pub fn bucket_runs(times: &[i64], start: i64, width_min: i64) -> (r: Vec<BucketRun>)
    requires
        width_min > 0,
        forall|i: int| 0 <= i < times@.len() ==> start <= #[trigger] times@[i],
        forall|i: int| 0 <= i < times@.len() ==>
            i64::MIN <= start + #[trigger] bucket_at(times@, start, width_min, i) * width_min * NS_PER_MIN <= i64::MAX,
    ensures
        runs_ok(times@, start, width_min, r@, times@.len() as int),
{
    let n = times.len();
    let mut runs: Vec<BucketRun> = Vec::new();
    let mut i: usize = 0;
    let mut cur: i128 = 0;
    while i < n
        invariant
            n == times@.len(),
            width_min > 0,
            forall|j: int| 0 <= j < times@.len() ==> start <= #[trigger] times@[j],
            forall|j: int| 0 <= j < times@.len() ==>
                i64::MIN <= start + #[trigger] bucket_at(times@, start, width_min, j) * width_min * NS_PER_MIN <= i64::MAX,
            i <= n,
            runs_ok(times@, start, width_min, runs@, i as int),
            i > 0 ==> cur == bucket_at(times@, start, width_min, i - 1),
        decreases n - i,
    {
        let d: i128 = times[i] as i128 - start as i128;
        let b: i128 = (d / (NS_PER_MIN as i128)) / (width_min as i128);
        assert(b == bucket_at(times@, start, width_min, i as int));
        let ghost old_runs = runs@;
        if i > 0 && b == cur {
            let k = runs.len() - 1;
            let mut last_run = runs[k];
            last_run.last = i;
            runs.set(k, last_run);
            proof {
                assert forall|q: int| 0 <= q < runs@.len() implies {
                    &&& (#[trigger] runs@[q]).first <= runs@[q].last < i + 1
                    &&& runs@[q].bucket_start == start + bucket_at(times@, start, width_min, runs@[q].first as int) * width_min * NS_PER_MIN
                    &&& forall|x: int| runs@[q].first <= x <= runs@[q].last ==>
                        #[trigger] bucket_at(times@, start, width_min, x) == bucket_at(times@, start, width_min, runs@[q].first as int)
                } by {
                    if q < k {
                        assert(runs@[q] == old_runs[q]);
                    }
                }
                assert forall|q: int| 0 <= q < runs@.len() - 1 implies {
                    &&& (#[trigger] runs@[q + 1]).first == runs@[q].last + 1
                    &&& bucket_at(times@, start, width_min, runs@[q + 1].first as int) != bucket_at(times@, start, width_min, runs@[q].last as int)
                } by {
                    assert(runs@[q] == old_runs[q]);
                    assert(runs@[q + 1].first == old_runs[q + 1].first);
                }
            }
        } else {
            let bs: i64 = (start as i128 + b * (width_min as i128) * (NS_PER_MIN as i128)) as i64;
            runs.push(BucketRun { bucket_start: bs, first: i, last: i });
            proof {
                assert forall|q: int| 0 <= q < runs@.len() implies {
                    &&& (#[trigger] runs@[q]).first <= runs@[q].last < i + 1
                    &&& runs@[q].bucket_start == start + bucket_at(times@, start, width_min, runs@[q].first as int) * width_min * NS_PER_MIN
                    &&& forall|x: int| runs@[q].first <= x <= runs@[q].last ==>
                        #[trigger] bucket_at(times@, start, width_min, x) == bucket_at(times@, start, width_min, runs@[q].first as int)
                } by {
                    if q < old_runs.len() {
                        assert(runs@[q] == old_runs[q]);
                    }
                }
                assert forall|q: int| 0 <= q < runs@.len() - 1 implies {
                    &&& (#[trigger] runs@[q + 1]).first == runs@[q].last + 1
                    &&& bucket_at(times@, start, width_min, runs@[q + 1].first as int) != bucket_at(times@, start, width_min, runs@[q].last as int)
                } by {
                    assert(runs@[q] == old_runs[q]);
                    if q + 1 < old_runs.len() {
                        assert(runs@[q + 1] == old_runs[q + 1]);
                    }
                }
            }
        }
        cur = b;
        i += 1;
    }
    runs
}


/// Index ranges of a day's session windows over its time-sorted bars.
#[derive(Debug, Clone, Copy, PartialEq, Eq)]
pub struct SessionWindows {
    /// Regular session: 09:30 ET up to one minute past the session close.
    pub rth: (usize, usize),
    /// Pre-market: 04:00 to 09:30 ET.
    pub premarket: (usize, usize),
    /// The last 30 minutes of the regular session.
    pub last_30m: (usize, usize),
}

pub open spec fn window_of(times: Seq<i64>, start: int, end: int, w: (usize, usize)) -> bool {
    &&& w.0 <= times.len() && w.1 <= times.len()
    &&& forall|k: int| 0 <= k < times.len() ==> (times[k] < start <==> k < w.0)
    &&& forall|k: int| 0 <= k < times.len() ==> (times[k] < end <==> k < w.1)
}

/// The session windows of a day given its 04:00 and 09:30 ET instants and
/// its session close (all UTC nanoseconds).
pub fn session_windows(times: &[i64], premarket_start: i64, rth_open: i64, session_close: i64) -> (r: SessionWindows)
    requires
        nondecreasing(times@),
        session_close <= i64::MAX - NS_PER_MIN,
        session_close + NS_PER_MIN - 30 * NS_PER_MIN >= i64::MIN,
    ensures
        window_of(times@, rth_open as int, session_close + NS_PER_MIN, r.rth),
        window_of(times@, premarket_start as int, rth_open as int, r.premarket),
        window_of(times@, session_close + NS_PER_MIN - 30 * NS_PER_MIN, session_close + NS_PER_MIN, r.last_30m),
{
    let rth_end = session_close + NS_PER_MIN;
    let rth = slice_bounds(times, rth_open, rth_end);
    let premarket = slice_bounds(times, premarket_start, rth_open);
    let last_30m = slice_bounds(times, rth_end - 30 * NS_PER_MIN, rth_end);
    SessionWindows { rth, premarket, last_30m }
}


/// The 04:00 and 09:30 ET instants of `day` (pre-market and regular-session
/// starts), UTC nanoseconds.
pub fn session_starts(day: i32) -> (r: Option<(i64, i64)>)
    ensures
        match (ny_local_to_utc_ns(day, 4, 0), ny_local_to_utc_ns(day, 9, 30)) {
            (Some(a), Some(b)) => r == Some((a, b)),
            _ => r is None,
        },
{
    match (et(day, 4, 0), et(day, 9, 30)) {
        (Some(a), Some(b)) => Some((a, b)),
        _ => None,
    }
}

/// Indices of a day's bars inside the regular session `[09:30 ET,
/// close]`, in order.
pub fn rth_indices(times: &[i64], rth_open: i64, session_close: i64) -> (r: Vec<usize>)
    ensures
        forall|k: int| 0 <= k < r@.len() ==> (#[trigger] r@[k]) < times@.len()
            && rth_open <= times@[r@[k] as int] <= session_close,
        forall|a: int, b: int| 0 <= a < b < r@.len() ==> r@[a] < r@[b],
        forall|i: int| 0 <= i < times@.len() && rth_open <= #[trigger] times@[i] <= session_close ==> r@.contains(i as usize),
{
    let mut r: Vec<usize> = Vec::new();
    let mut i: usize = 0;
    while i < times.len()
        invariant
            i <= times@.len(),
            forall|k: int| 0 <= k < r@.len() ==> (#[trigger] r@[k]) < i
                && rth_open <= times@[r@[k] as int] <= session_close,
            forall|a: int, b: int| 0 <= a < b < r@.len() ==> r@[a] < r@[b],
            forall|j: int| 0 <= j < i && rth_open <= #[trigger] times@[j] <= session_close ==> r@.contains(j as usize),
        decreases times@.len() - i,
    {
        if times[i] >= rth_open && times[i] <= session_close {
            let ghost old_r = r@;
            r.push(i);
            proof {
                assert forall|j: int| 0 <= j < i + 1 && rth_open <= #[trigger] times@[j] <= session_close implies r@.contains(j as usize) by {
                    if j < i {
                        let k = choose|k: int| 0 <= k < old_r.len() && old_r[k] == j as usize;
                        assert(r@[k] == j as usize);
                    } else {
                        assert(r@[r@.len() - 1] == j as usize);
                    }
                }
            }
        }
        i += 1;
    }
    r
}

} // verus!
