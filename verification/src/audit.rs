//! The corpus audit of the per-day bar files: weekdays without a file
//! inside the covered range, and the row-count summary of the files.

use vstd::prelude::*;
use crate::dates::{spec_weekday_from_monday, weekday_from_monday};

verus! {

/// Day numbers in non-decreasing order.
pub open spec fn nondecreasing_days(s: Seq<i32>) -> bool {
    forall|i: int, j: int| 0 <= i < j < s.len() ==> s[i] <= s[j]
}

/// `x` is a Monday-to-Friday day inside `[first, last]` of `days` that has
/// no file.
pub open spec fn is_weekday_gap(days: Seq<i32>, x: int) -> bool {
    &&& days.len() > 0
    &&& days[0] <= x <= days.last()
    &&& spec_weekday_from_monday(x) < 5
    &&& !days.contains(x as i32)
}

/// The weekdays between the first and the last day of `days` (both
/// included) that are not among `days`, in increasing order.
pub fn weekday_gaps(days: &Vec<i32>) -> (r: Vec<i32>)
    requires
        days@.len() > 0,
        nondecreasing_days(days@),
    ensures
        forall|k: int| 0 <= k < r@.len() ==> is_weekday_gap(days@, #[trigger] r@[k] as int),
        forall|a: int, b: int| 0 <= a < b < r@.len() ==> r@[a] < r@[b],
        forall|x: int| is_weekday_gap(days@, x) ==> #[trigger] r@.contains(x as i32),
{
    let n = days.len();
    let first = days[0];
    let last = days[n - 1];
    let mut r: Vec<i32> = Vec::new();
    let mut d: i64 = first as i64;
    let mut j: usize = 0;
    while d <= last as i64
        invariant
            n == days@.len(),
            n > 0,
            first == days@[0],
            last == days@[n - 1],
            nondecreasing_days(days@),
            first <= d <= last as i64 + 1,
            j <= n,
            forall|i: int| 0 <= i < j ==> days@[i] < d,
            forall|k: int| 0 <= k < r@.len() ==> is_weekday_gap(days@, #[trigger] r@[k] as int) && r@[k] < d,
            forall|a: int, b: int| 0 <= a < b < r@.len() ==> r@[a] < r@[b],
            forall|x: int| first <= x < d && is_weekday_gap(days@, x) ==> #[trigger] r@.contains(x as i32),
        decreases last as i64 + 1 - d,
    {
        let day = d as i32;
        while j < n && (days[j] as i64) < d
            invariant
                n == days@.len(),
                j <= n,
                forall|i: int| 0 <= i < j ==> days@[i] < d,
            decreases n - j,
        {
            j += 1;
        }
        proof {
            assert forall|i: int| j <= i < n implies days@[i] >= d by {
                if j < n {
                    assert(days@[j as int] >= d);
                    assert(days@[j as int] <= days@[i]);
                }
            }
        }
        let present = j < n && days[j] == day;
        proof {
            if present {
                assert(days@.contains(day));
            } else {
                assert forall|i: int| 0 <= i < n implies days@[i] != day by {
                    if i >= j {
                        if j < n {
                            assert(days@[j as int] > d);
                            assert(days@[j as int] <= days@[i]);
                        }
                    }
                }
            }
        }
        if !present && weekday_from_monday(day) < 5 {
            let ghost old_r = r@;
            r.push(day);
            proof {
                assert(is_weekday_gap(days@, day as int));
                assert forall|x: int| first <= x < d + 1 && is_weekday_gap(days@, x) implies #[trigger] r@.contains(x as i32) by {
                    if x < d {
                        assert(old_r.contains(x as i32));
                        let k = choose|k: int| 0 <= k < old_r.len() && old_r[k] == x as i32;
                        assert(r@[k] == x as i32);
                    } else {
                        assert(r@[r@.len() - 1] == x as i32);
                    }
                }
            }
        } else {
            proof {
                assert forall|x: int| first <= x < d + 1 && is_weekday_gap(days@, x) implies #[trigger] r@.contains(x as i32) by {
                    if x == d {
                        if present {
                            assert(days@.contains(x as i32));
                        }
                        assert(spec_weekday_from_monday(x) < 5);
                    }
                }
            }
        }
        d = d + 1;
    }
    r
}

/// One bar file's day and row count.
pub type FileRows = (i32, u64);

/// Total rows of the files.
pub open spec fn total_rows(files: Seq<FileRows>) -> int
    decreases files.len(),
{
    if files.len() == 0 {
        0
    } else {
        total_rows(files.drop_last()) + files.last().1
    }
}

/// Index of the first file with the fewest rows.
pub open spec fn is_first_min(files: Seq<FileRows>, k: int) -> bool {
    &&& 0 <= k < files.len()
    &&& forall|j: int| 0 <= j < files.len() ==> files[k].1 <= #[trigger] files[j].1
    &&& forall|j: int| 0 <= j < k ==> files[k].1 < #[trigger] files[j].1
}

/// Index of the first file with the most rows.
pub open spec fn is_first_max(files: Seq<FileRows>, k: int) -> bool {
    &&& 0 <= k < files.len()
    &&& forall|j: int| 0 <= j < files.len() ==> files[k].1 >= #[trigger] files[j].1
    &&& forall|j: int| 0 <= j < k ==> files[k].1 > #[trigger] files[j].1
}

/// Row-count summary of the bar files.
pub struct RowSummary {
    pub total: u64,
    /// The first file with the fewest rows.
    pub min: FileRows,
    /// The first file with the most rows.
    pub max: FileRows,
    /// Days of the files without rows, in file order.
    pub empty: Vec<i32>,
}

/// Days of the files without rows, in order.
pub open spec fn empty_days(files: Seq<FileRows>) -> Seq<i32>
    decreases files.len(),
{
    if files.len() == 0 {
        Seq::empty()
    } else {
        let prev = empty_days(files.drop_last());
        if files.last().1 == 0 { prev.push(files.last().0) } else { prev }
    }
}

proof fn lemma_total_rows_monotone(files: Seq<FileRows>, k: int)
    requires
        0 <= k <= files.len(),
    ensures
        0 <= total_rows(files.take(k)) <= total_rows(files),
    decreases files.len() - k,
{
    if k < files.len() {
        lemma_total_rows_monotone(files, k + 1);
        assert(files.take(k + 1).drop_last() =~= files.take(k));
    } else {
        assert(files.take(k) =~= files);
    }
    lemma_total_rows_nonneg(files.take(k));
}

proof fn lemma_total_rows_nonneg(files: Seq<FileRows>)
    ensures
        total_rows(files) >= 0,
    decreases files.len(),
{
    if files.len() > 0 {
        lemma_total_rows_nonneg(files.drop_last());
    }
}

/// Total rows, the first smallest and first largest file, and the empty
/// files, of a non-empty list of files.
pub fn summarize_rows(files: &Vec<FileRows>) -> (r: RowSummary)
    requires
        files@.len() > 0,
        total_rows(files@) <= u64::MAX,
    ensures
        r.total == total_rows(files@),
        exists|k: int| is_first_min(files@, k) && r.min == files@[k],
        exists|k: int| is_first_max(files@, k) && r.max == files@[k],
        r.empty@ == empty_days(files@),
{
    let n = files.len();
    let mut total: u64 = 0;
    let mut kmin: usize = 0;
    let mut kmax: usize = 0;
    let mut empty: Vec<i32> = Vec::new();
    let mut i: usize = 0;
    while i < n
        invariant
            n == files@.len(),
            n > 0,
            i <= n,
            total_rows(files@) <= u64::MAX,
            total == total_rows(files@.take(i as int)),
            empty@ == empty_days(files@.take(i as int)),
            kmin < n && kmax < n,
            i == 0 ==> kmin == 0 && kmax == 0,
            i > 0 ==> kmin < i && kmax < i,
            forall|j: int| 0 <= j < i ==> files@[kmin as int].1 <= #[trigger] files@[j].1,
            forall|j: int| 0 <= j < kmin ==> files@[kmin as int].1 < #[trigger] files@[j].1,
            forall|j: int| 0 <= j < i ==> files@[kmax as int].1 >= #[trigger] files@[j].1,
            forall|j: int| 0 <= j < kmax ==> files@[kmax as int].1 > #[trigger] files@[j].1,
        decreases n - i,
    {
        let ghost pre = files@.take(i as int);
        let ghost nxt = files@.take(i as int + 1);
        proof {
            assert(nxt.drop_last() =~= pre);
            assert(nxt.last() == files@[i as int]);
            lemma_total_rows_monotone(files@, i as int + 1);
        }
        let (day, rows) = files[i];
        total = total + rows;
        if rows == 0 {
            empty.push(day);
        }
        if i > 0 && rows < files[kmin].1 {
            kmin = i;
        }
        if i > 0 && rows > files[kmax].1 {
            kmax = i;
        }
        i += 1;
    }
    proof {
        assert(files@.take(n as int) =~= files@);
        assert(is_first_min(files@, kmin as int));
        assert(is_first_max(files@, kmax as int));
    }
    RowSummary { total, min: files[kmin], max: files[kmax], empty }
}

/// The first position whose day is not after the one before it: the first
/// `i >= 1` with `days[i] <= days[i - 1]`; `None` when the days strictly
/// increase.
pub fn first_non_increasing(days: &[i32]) -> (r: Option<usize>)
    ensures
        match r {
            Some(i) => {
                &&& 1 <= i < days@.len()
                &&& days@[i as int] <= days@[i - 1]
                &&& forall|k: int| 1 <= k < i ==> days@[k - 1] < #[trigger] days@[k]
            },
            None => forall|k: int| 1 <= k < days@.len() ==> days@[k - 1] < #[trigger] days@[k],
        },
{
    let mut i: usize = 1;
    while i < days.len()
        invariant
            1 <= i,
            i <= days@.len() || days@.len() == 0,
            forall|k: int| 1 <= k < i && k < days@.len() ==> days@[k - 1] < #[trigger] days@[k],
        decreases days@.len() - i,
    {
        if days[i] <= days[i - 1] {
            return Some(i);
        }
        i += 1;
    }
    None
}

} // verus!
