//! The integer bookkeeping of the forward pass: entry-offset labels, the
//! entry bar, the layout of the forward tape, horizon ends, first-cross
//! reporting, target-versus-stop resolution, time-underwater runs and bar
//! gaps.
//!
//! Bar times are nanoseconds since the Unix epoch (UTC). Price comparisons
//! (a bar's high against a threshold, a close against the entry price)
//! arrive here already made: as touch flags per bar, or as the side of the
//! entry price each close fell on.

use vstd::prelude::*;
use crate::dates::{et, ny_local_to_utc_ns};
use crate::parse::{parse_unsigned, parse_unsigned_chars};
use crate::text::chars_of;

verus! {

// ---------------------------------------------------------------------------
// Entry offsets
// ---------------------------------------------------------------------------

/// ET `(hour, minute)` of an `HHMM` offset label: the first two characters
/// and the rest, each parsed as a `u32`.
pub fn offset_hm(label: &str) -> (r: (u32, u32))
    requires
        label@.len() >= 2,
        parse_unsigned(label@.take(2), u32::MAX as nat) is Some,
        parse_unsigned(label@.skip(2), u32::MAX as nat) is Some,
    ensures
        r.0 as nat == parse_unsigned(label@.take(2), u32::MAX as nat)->0,
        r.1 as nat == parse_unsigned(label@.skip(2), u32::MAX as nat)->0,
{
    let cs = chars_of(label);
    let mut head: Vec<char> = Vec::new();
    head.push(cs[0]);
    head.push(cs[1]);
    let mut tail: Vec<char> = Vec::new();
    let mut i: usize = 2;
    while i < cs.len()
        invariant
            2 <= i <= cs@.len(),
            cs@ == label@,
            tail@ == cs@.subrange(2, i as int),
        decreases cs@.len() - i,
    {
        tail.push(cs[i]);
        assert(cs@.subrange(2, i as int + 1) =~= cs@.subrange(2, i as int).push(cs@[i as int]));
        i += 1;
    }
    assert(head@ =~= label@.take(2));
    assert(tail@ =~= label@.skip(2));
    let h = parse_unsigned_chars(&head, 4_294_967_295u64);
    let m = parse_unsigned_chars(&tail, 4_294_967_295u64);
    match (h, m) {
        (Some(h), Some(m)) => (h as u32, m as u32),
        _ => (0, 0),
    }
}

/// The entry instant (UTC nanoseconds) of an `HHMM` offset label on `day`,
/// read as US/Eastern wall-clock time; `None` when that local time does not
/// exist on the day.
pub fn entry_time(day: i32, offset_label: &str) -> (r: Option<i64>)
    requires
        offset_label@.len() >= 2,
        parse_unsigned(offset_label@.take(2), u32::MAX as nat) is Some,
        parse_unsigned(offset_label@.skip(2), u32::MAX as nat) is Some,
    ensures
        r == ny_local_to_utc_ns(
            day,
            parse_unsigned(offset_label@.take(2), u32::MAX as nat)->0 as u32,
            parse_unsigned(offset_label@.skip(2), u32::MAX as nat)->0 as u32,
        ),
{
    let (h, m) = offset_hm(offset_label);
    et(day, h, m)
}

// ---------------------------------------------------------------------------
// First-cross reporting
// ---------------------------------------------------------------------------

/// 1-based report of a first crossing within a horizon: `None` when the
/// horizon has no forward data, `Some(0)` when it was reached but the
/// threshold never crossed, `Some(i + 1)` when first crossed at tape index
/// `i` within the horizon end.
pub open spec fn cross_report(first: Option<usize>, end: Option<usize>) -> Option<u32> {
    match end {
        None => None,
        Some(e) => match first {
            Some(i) => if i <= e { Some(((i as u32) + 1) as u32) } else { Some(0u32) },
            None => Some(0u32),
        },
    }
}

pub fn report_cross(first: Option<usize>, end: Option<usize>) -> (r: Option<u32>)
    requires
        match (first, end) {
            (Some(i), Some(e)) => i <= e ==> (i as u32) < u32::MAX,
            _ => true,
        },
    ensures
        r == cross_report(first, end),
{
    match end {
        None => None,
        Some(e) => match first {
            Some(idx) => if idx <= e { Some(idx as u32 + 1) } else { Some(0) },
            None => Some(0),
        },
    }
}

/// Daily-resolution report for a horizon of `h` trading days: `None` when
/// the forward series is shorter than the horizon, else as
/// [`cross_report`] with day index `0` the entry day.
pub open spec fn daily_report(first: Option<usize>, h: usize, have: bool) -> Option<u32> {
    if !have {
        None
    } else {
        match first {
            Some(i) => if i <= h { Some(((i as u32) + 1) as u32) } else { Some(0u32) },
            None => Some(0u32),
        }
    }
}

pub fn report_daily(first: Option<usize>, h: usize, have: bool) -> (r: Option<u32>)
    requires
        match first {
            Some(i) => have && i <= h ==> (i as u32) < u32::MAX,
            None => true,
        },
    ensures
        r == daily_report(first, h, have),
{
    if !have {
        return None;
    }
    match first {
        Some(idx) => if idx <= h { Some(idx as u32 + 1) } else { Some(0) },
        None => Some(0),
    }
}

// ---------------------------------------------------------------------------
// Horizons
// ---------------------------------------------------------------------------

/// One short horizon.
#[derive(Clone, Copy)]
pub enum Horizon {
    /// Clock minutes from entry, capped at the entry day's close.
    Intraday(&'static str, i64),
    /// The entry day's last regular-session bar.
    Eod,
    /// The close of the `k`-th following trading day.
    Day(&'static str, usize),
}

pub open spec fn horizon_text(h: Horizon) -> Seq<char> {
    match h {
        Horizon::Intraday(l, _) => l@,
        Horizon::Eod => "EOD"@,
        Horizon::Day(l, _) => l@,
    }
}

pub fn horizon_label(h: &Horizon) -> (r: &'static str)
    ensures
        r@ == horizon_text(*h),
{
    match h {
        Horizon::Intraday(l, _) => l,
        Horizon::Eod => "EOD",
        Horizon::Day(l, _) => l,
    }
}

/// The short horizons, in column order: 10, 30 and 60 minutes, EOD, and
/// 1, 2, 3 and 5 days.
pub open spec fn short_horizon_spans() -> Seq<(int, int)> {
    // (kind, amount): kind 0 = intraday minutes, 1 = EOD, 2 = trading days
    seq![(0, 10), (0, 30), (0, 60), (1, 0), (2, 1), (2, 2), (2, 3), (2, 5)]
}

pub open spec fn horizon_span(h: Horizon) -> (int, int) {
    match h {
        Horizon::Intraday(_, m) => (0, m as int),
        Horizon::Eod => (1, 0),
        Horizon::Day(_, k) => (2, k as int),
    }
}

pub fn short_horizons() -> (r: Vec<Horizon>)
    ensures
        r@.len() == 8,
        forall|k: int| 0 <= k < 8 ==> horizon_span(#[trigger] r@[k]) == short_horizon_spans()[k],
        r@.map_values(|h: Horizon| horizon_text(h)) == seq![
            "10min"@, "30min"@, "60min"@, "EOD"@, "1d"@, "2d"@, "3d"@, "5d"@,
        ],
{
    let r = vec![
        Horizon::Intraday("10min", 10),
        Horizon::Intraday("30min", 30),
        Horizon::Intraday("60min", 60),
        Horizon::Eod,
        Horizon::Day("1d", 1),
        Horizon::Day("2d", 2),
        Horizon::Day("3d", 3),
        Horizon::Day("5d", 5),
    ];
    assert(r@.map_values(|h: Horizon| horizon_text(h)) =~= seq![
        "10min"@, "30min"@, "60min"@, "EOD"@, "1d"@, "2d"@, "3d"@, "5d"@,
    ]);
    r
}

// ---------------------------------------------------------------------------
// The entry bar
// ---------------------------------------------------------------------------

/// The entry bar: the first regular-session bar at or after the entry
/// minute, and whether the exact minute was missing (a halt); `None` when
/// no such bar exists.
pub fn find_entry(rth_times: &[i64], entry_t: i64) -> (r: Option<(usize, bool)>)
    ensures
        match r {
            Some((i, halted)) => {
                &&& i < rth_times@.len()
                &&& rth_times@[i as int] >= entry_t
                &&& forall|k: int| 0 <= k < i ==> rth_times@[k] < entry_t
                &&& halted == (rth_times@[i as int] > entry_t)
            },
            None => forall|k: int| 0 <= k < rth_times@.len() ==> rth_times@[k] < entry_t,
        },
{
    let mut i: usize = 0;
    while i < rth_times.len()
        invariant
            i <= rth_times@.len(),
            forall|k: int| 0 <= k < i ==> rth_times@[k] < entry_t,
        decreases rth_times@.len() - i,
    {
        if rth_times[i] >= entry_t {
            return Some((i, rth_times[i] > entry_t));
        }
        i += 1;
    }
    None
}


// ---------------------------------------------------------------------------
// The forward tape
// ---------------------------------------------------------------------------

/// Nanoseconds per minute.
pub const NS_PER_MINUTE: i128 = 60_000_000_000;

/// Length of day `k`'s segment on the tape: the entry day from the entry bar
/// on, each following day whole.
pub open spec fn seg_len(day_lens: Seq<usize>, eidx: int, k: int) -> int {
    if k == 0 { day_lens[0] - eidx } else { day_lens[k] as int }
}

/// Tape index where day `k`'s segment starts.
pub open spec fn seg_start(day_lens: Seq<usize>, eidx: int, k: int) -> int
    decreases k,
{
    if k <= 0 { 0 } else { seg_start(day_lens, eidx, k - 1) + seg_len(day_lens, eidx, k - 1) }
}

/// `(start, close)` tape indices of day `k` (0 = entry day, up to 5), or
/// `None` when that day is absent or has no bars.
pub open spec fn day_bounds(day_lens: Seq<usize>, eidx: int, k: int) -> Option<(usize, usize)> {
    if k < day_lens.len() && seg_len(day_lens, eidx, k) > 0 {
        Some((seg_start(day_lens, eidx, k) as usize,
              (seg_start(day_lens, eidx, k) + seg_len(day_lens, eidx, k) - 1) as usize))
    } else {
        None
    }
}

proof fn lemma_seg_start_mono(day_lens: Seq<usize>, eidx: int, k: int)
    requires
        0 <= eidx <= day_lens[0],
        0 <= k <= day_lens.len(),
        day_lens.len() >= 1,
    ensures
        seg_start(day_lens, eidx, k) >= 0,
        forall|j: int| 0 <= j < k ==> seg_start(day_lens, eidx, j) + seg_len(day_lens, eidx, j) <= seg_start(day_lens, eidx, k),
    decreases k,
{
    if k > 0 {
        lemma_seg_start_mono(day_lens, eidx, k - 1);
    }
}

/// The tape bounds of the entry day and up to five following days, given
/// each day's regular-session bar count (`day_lens[0]` the entry day's)
/// and the entry bar index. The tape holds at most `usize::MAX` bars.
pub fn tape_bounds(day_lens: &Vec<usize>, eidx: usize) -> (r: Vec<Option<(usize, usize)>>)
    requires
        day_lens@.len() >= 1,
        eidx <= day_lens@[0],
        seg_start(day_lens@, eidx as int, if day_lens@.len() < 6 { day_lens@.len() as int } else { 6 }) <= usize::MAX,
    ensures
        r@.len() == 6,
        forall|k: int| 0 <= k < 6 ==> #[trigger] r@[k] == day_bounds(day_lens@, eidx as int, k),
{
    let n: usize = if day_lens.len() < 6 { day_lens.len() } else { 6 };
    let ghost lens = day_lens@;
    proof { lemma_seg_start_mono(lens, eidx as int, n as int); }
    let mut r: Vec<Option<(usize, usize)>> = Vec::new();
    let mut start: usize = 0;
    let mut k: usize = 0;
    while k < 6
        invariant
            lens == day_lens@,
            n == (if lens.len() < 6 { lens.len() } else { 6 }),
            eidx <= lens[0],
            lens.len() >= 1,
            k <= 6,
            r@.len() == k,
            seg_start(lens, eidx as int, n as int) <= usize::MAX,
            forall|j: int| 0 <= j < n ==> seg_start(lens, eidx as int, j) + seg_len(lens, eidx as int, j) <= seg_start(lens, eidx as int, n as int),
            k <= n ==> start == seg_start(lens, eidx as int, k as int),
            forall|j: int| 0 <= j < k ==> #[trigger] r@[j] == day_bounds(lens, eidx as int, j),
        decreases 6 - k,
    {
        if k < n {
            let len = if k == 0 { day_lens[0] - eidx } else { day_lens[k] };
            assert(len == seg_len(lens, eidx as int, k as int));
            if len > 0 {
                r.push(Some((start, start + len - 1)));
            } else {
                r.push(None);
            }
            start = start + len;
        } else {
            r.push(None);
        }
        k += 1;
    }
    r
}

/// Index of the first tape bar at or before `lim` (exclusive) that lies
/// after `cutoff`, or `lim` when none does.
pub open spec fn first_after(times: Seq<i64>, lim: int, cutoff: int) -> int
    decreases lim,
{
    if lim <= 0 {
        0
    } else if first_after(times, lim - 1, cutoff) < lim - 1 {
        first_after(times, lim - 1, cutoff)
    } else if times[lim - 1] > cutoff {
        lim - 1
    } else {
        lim
    }
}

/// The last tape index within the entry day (at most `day0_close`) such
/// that every bar up to it is at most `minutes` after the entry bar's time;
/// `None` when the entry day is absent or its first bar is already later.
pub open spec fn intraday_end_spec(times: Seq<i64>, day0_close: Option<usize>, entry_t: i64, minutes: i64) -> Option<usize> {
    match day0_close {
        None => None,
        Some(upper) => {
            let lim = if upper + 1 < times.len() { upper + 1 } else { times.len() as int };
            let k = first_after(times, lim, entry_t + minutes * NS_PER_MINUTE);
            if k == 0 { None } else { Some((k - 1) as usize) }
        },
    }
}

proof fn lemma_first_after_step(times: Seq<i64>, lim: int, cutoff: int)
    requires
        0 <= lim < times.len(),
        first_after(times, lim, cutoff) == lim,
    ensures
        first_after(times, lim + 1, cutoff) == if times[lim] > cutoff { lim } else { lim + 1 },
{
}

pub fn intraday_end(times: &[i64], day0_close: Option<usize>, entry_t: i64, minutes: i64) -> (r: Option<usize>)
    ensures
        r == intraday_end_spec(times@, day0_close, entry_t, minutes),
{
    let upper = match day0_close {
        Some(u) => u,
        None => return None,
    };
    let cutoff: i128 = entry_t as i128 + minutes as i128 * NS_PER_MINUTE;
    let lim: usize = if upper < times.len() { upper + 1 } else { times.len() };
    let mut last: Option<usize> = None;
    let mut i: usize = 0;
    while i < lim
        invariant
            lim <= times@.len(),
            day0_close == Some(upper),
            lim == (if upper < times@.len() { upper + 1 } else { times@.len() as int }),
            cutoff == entry_t + minutes * NS_PER_MINUTE,
            i <= lim,
            first_after(times@, i as int, cutoff as int) == i,
            last == (if i == 0 { None } else { Some((i - 1) as usize) }),
        decreases lim - i,
    {
        proof { lemma_first_after_step(times@, i as int, cutoff as int); }
        if (times[i] as i128) <= cutoff {
            last = Some(i);
        } else {
            proof { lemma_first_after_stays(times@, i as int, lim as int, cutoff as int); }
            return last;
        }
        i += 1;
    }
    last
}

proof fn lemma_first_after_stays(times: Seq<i64>, k: int, lim: int, cutoff: int)
    requires
        0 <= k < lim <= times.len(),
        first_after(times, k + 1, cutoff) == k,
    ensures
        first_after(times, lim, cutoff) == k,
    decreases lim - k,
{
    if lim > k + 1 {
        lemma_first_after_stays(times, k, lim - 1, cutoff);
    }
}


/// End of the window of a short horizon given as `(kind, amount)` (see
/// [`short_horizon_spans`]).
pub open spec fn horizon_end(times: Seq<i64>, bounds: Seq<Option<(usize, usize)>>, entry_t: i64, span: (int, int)) -> Option<usize> {
    let day0_close = match bounds[0] { Some((_, c)) => Some(c), None => None };
    if span.0 == 0 {
        intraday_end_spec(times, day0_close, entry_t, span.1 as i64)
    } else if span.0 == 1 {
        day0_close
    } else {
        match bounds[span.1] { Some((_, c)) => Some(c), None => None }
    }
}

/// Window end of each short horizon on the tape.
pub fn ends_from_bounds(times: &[i64], bounds: &Vec<Option<(usize, usize)>>, entry_t: i64) -> (r: Vec<Option<usize>>)
    requires
        bounds@.len() == 6,
    ensures
        r@.len() == 8,
        forall|k: int| 0 <= k < 8 ==> #[trigger] r@[k] == horizon_end(times@, bounds@, entry_t, short_horizon_spans()[k]),
{
    let day0_close = match bounds[0] { Some((_, c)) => Some(c), None => None };
    let hs = short_horizons();
    let mut r: Vec<Option<usize>> = Vec::new();
    let mut k: usize = 0;
    while k < hs.len()
        invariant
            hs@.len() == 8,
            bounds@.len() == 6,
            forall|j: int| 0 <= j < 8 ==> horizon_span(#[trigger] hs@[j]) == short_horizon_spans()[j],
            day0_close == (match bounds@[0] { Some((_, c)) => Some(c), None => None::<usize> }),
            k <= 8,
            r@.len() == k,
            forall|j: int| 0 <= j < k ==> #[trigger] r@[j] == horizon_end(times@, bounds@, entry_t, short_horizon_spans()[j]),
        decreases 8 - k,
    {
        assert(horizon_span(hs@[k as int]) == short_horizon_spans()[k as int]);
        let e = match hs[k] {
            Horizon::Intraday(_, m) => intraday_end(times, day0_close, entry_t, m),
            Horizon::Eod => day0_close,
            Horizon::Day(_, d) => {
                assert(d == 1 || d == 2 || d == 3 || d == 5);
                match bounds[d] { Some((_, c)) => Some(c), None => None }
            },
        };
        r.push(e);
        k += 1;
    }
    r
}

// ---------------------------------------------------------------------------
// Time underwater
// ---------------------------------------------------------------------------

/// Where a bar's close fell relative to the entry price.
#[derive(Debug, Clone, Copy, PartialEq, Eq, Structural)]
pub enum CloseSide {
    Above,
    Below,
    Flat,
}

pub open spec fn count_side(s: Seq<CloseSide>, side: CloseSide) -> nat
    decreases s.len(),
{
    if s.len() == 0 {
        0
    } else {
        count_side(s.drop_last(), side) + if s.last() == side { 1nat } else { 0nat }
    }
}

/// Length of the run of `side` that ends the sequence.
pub open spec fn trailing_run(s: Seq<CloseSide>, side: CloseSide) -> nat
    decreases s.len(),
{
    if s.len() == 0 || s.last() != side {
        0
    } else {
        trailing_run(s.drop_last(), side) + 1
    }
}

/// Longest run of consecutive `side` closes.
pub open spec fn longest_run(s: Seq<CloseSide>, side: CloseSide) -> nat
    decreases s.len(),
{
    if s.len() == 0 {
        0
    } else {
        let prev = longest_run(s.drop_last(), side);
        let cur = trailing_run(s, side);
        if cur > prev { cur } else { prev }
    }
}

/// Index of the first close below entry.
pub open spec fn first_below(s: Seq<CloseSide>) -> Option<int>
    decreases s.len(),
{
    if s.len() == 0 {
        None
    } else {
        match first_below(s.drop_last()) {
            Some(i) => Some(i),
            None => if s.last() == CloseSide::Below { Some(s.len() - 1) } else { None },
        }
    }
}

/// Index of the first close back at or above entry after the first close
/// below it.
pub open spec fn recovery(s: Seq<CloseSide>) -> Option<int>
    decreases s.len(),
{
    if s.len() == 0 {
        None
    } else {
        match recovery(s.drop_last()) {
            Some(r) => Some(r),
            None => if first_below(s.drop_last()) is Some && s.last() != CloseSide::Below {
                Some(s.len() - 1)
            } else {
                None
            },
        }
    }
}

/// Bars from the first close below entry to the recovery; 0 when never
/// below or never recovered.
pub open spec fn time_to_recover(s: Seq<CloseSide>) -> int {
    match (first_below(s), recovery(s)) {
        (Some(f), Some(r)) => r - f,
        _ => 0,
    }
}

/// Close-based path statistics of a window `[entry, end]` of the tape.
#[derive(Debug, Clone, Copy, PartialEq, Eq)]
pub struct UnderwaterStats {
    /// Bars in the window.
    pub bars: u32,
    /// Bars closing above entry.
    pub profitable: u32,
    /// Bars closing below entry.
    pub underwater: u32,
    pub max_consecutive_profitable: u32,
    pub max_consecutive_underwater: u32,
    /// Bars from the first close below entry to the first later close at or
    /// above it; 0 when never below or never recovered.
    pub time_to_recover: u32,
}

proof fn lemma_run_bounds(s: Seq<CloseSide>, side: CloseSide)
    ensures
        trailing_run(s, side) <= s.len(),
        longest_run(s, side) <= s.len(),
        count_side(s, side) <= s.len(),
    decreases s.len(),
{
    if s.len() > 0 {
        lemma_run_bounds(s.drop_last(), side);
    }
}

proof fn lemma_recovery_after_below(s: Seq<CloseSide>)
    ensures
        recovery(s) matches Some(r) ==> first_below(s) matches Some(f) && f < r < s.len(),
        first_below(s) matches Some(f) ==> 0 <= f < s.len(),
    decreases s.len(),
{
    if s.len() > 0 {
        lemma_recovery_after_below(s.drop_last());
    }
}

/// Time-underwater statistics of the window `sides[0..=end]`.
pub fn underwater_stats(sides: &[CloseSide], end: usize) -> (r: UnderwaterStats)
    requires
        end < sides@.len(),
        end < u32::MAX,
    ensures
        r.bars == end + 1,
        r.profitable == count_side(sides@.take(end + 1), CloseSide::Above),
        r.underwater == count_side(sides@.take(end + 1), CloseSide::Below),
        r.max_consecutive_profitable == longest_run(sides@.take(end + 1), CloseSide::Above),
        r.max_consecutive_underwater == longest_run(sides@.take(end + 1), CloseSide::Below),
        r.time_to_recover == time_to_recover(sides@.take(end + 1)),
{
    let n = end + 1;
    let mut prof: u32 = 0;
    let mut under: u32 = 0;
    let mut cur_p: u32 = 0;
    let mut cur_u: u32 = 0;
    let mut max_p: u32 = 0;
    let mut max_u: u32 = 0;
    let mut first_under: Option<usize> = None;
    let mut recover: Option<usize> = None;
    let mut i: usize = 0;
    while i < n
        invariant
            n == end + 1,
            n <= sides@.len(),
            n <= u32::MAX,
            i <= n,
            prof == count_side(sides@.take(i as int), CloseSide::Above),
            under == count_side(sides@.take(i as int), CloseSide::Below),
            cur_p == trailing_run(sides@.take(i as int), CloseSide::Above),
            cur_u == trailing_run(sides@.take(i as int), CloseSide::Below),
            max_p == longest_run(sides@.take(i as int), CloseSide::Above),
            max_u == longest_run(sides@.take(i as int), CloseSide::Below),
            first_under == (match first_below(sides@.take(i as int)) { Some(f) => Some(f as usize), None => None::<usize> }),
            recover == (match recovery(sides@.take(i as int)) { Some(x) => Some(x as usize), None => None::<usize> }),
            first_below(sides@.take(i as int)) matches Some(f) ==> 0 <= f < i,
            recovery(sides@.take(i as int)) matches Some(x) ==> 0 <= x < i,
        decreases n - i,
    {
        let ghost pre = sides@.take(i as int);
        let ghost post = sides@.take(i as int + 1);
        assert(post.drop_last() =~= pre);
        assert(post.last() == sides@[i as int]);
        proof {
            lemma_run_bounds(pre, CloseSide::Above);
            lemma_run_bounds(pre, CloseSide::Below);
        }
        match sides[i] {
            CloseSide::Above => {
                prof = prof + 1;
                cur_p = cur_p + 1;
                cur_u = 0;
                if cur_p > max_p {
                    max_p = cur_p;
                }
                if first_under.is_some() && recover.is_none() {
                    recover = Some(i);
                }
            },
            CloseSide::Below => {
                under = under + 1;
                cur_u = cur_u + 1;
                cur_p = 0;
                if cur_u > max_u {
                    max_u = cur_u;
                }
                if first_under.is_none() {
                    first_under = Some(i);
                }
            },
            CloseSide::Flat => {
                cur_p = 0;
                cur_u = 0;
                if first_under.is_some() && recover.is_none() {
                    recover = Some(i);
                }
            },
        }
        i += 1;
    }
    let ghost all = sides@.take(n as int);
    proof { lemma_recovery_after_below(all); }
    let ttr: u32 = match (first_under, recover) {
        (Some(f), Some(r)) => (r - f) as u32,
        _ => 0,
    };
    UnderwaterStats {
        bars: n as u32,
        profitable: prof,
        underwater: under,
        max_consecutive_profitable: max_p,
        max_consecutive_underwater: max_u,
        time_to_recover: ttr,
    }
}


// ---------------------------------------------------------------------------
// Target before stop
// ---------------------------------------------------------------------------

/// Resolution of a target/stop pair.
#[derive(Debug, Clone, Copy, PartialEq, Eq, Structural)]
pub enum FirstEvent {
    TargetFirst,
    StopFirst,
    Neither,
    NoData,
}

pub open spec fn first_event_text(e: FirstEvent) -> Seq<char> {
    match e {
        FirstEvent::TargetFirst => "target_first"@,
        FirstEvent::StopFirst => "stop_first"@,
        FirstEvent::Neither => "neither"@,
        FirstEvent::NoData => "no_data"@,
    }
}

impl FirstEvent {
    pub fn as_str(&self) -> (r: &'static str)
        ensures
            r@ == first_event_text(*self),
    {
        match self {
            FirstEvent::TargetFirst => "target_first",
            FirstEvent::StopFirst => "stop_first",
            FirstEvent::Neither => "neither",
            FirstEvent::NoData => "no_data",
        }
    }
}

/// Index of the first set flag among the first `lim` flags.
pub open spec fn first_set(flags: Seq<bool>, lim: int) -> Option<int>
    decreases lim,
{
    if lim <= 0 {
        None
    } else {
        match first_set(flags, lim - 1) {
            Some(i) => Some(i),
            None => if flags[lim - 1] { Some(lim - 1) } else { None },
        }
    }
}

proof fn lemma_first_set_bounds(flags: Seq<bool>, lim: int)
    ensures
        first_set(flags, lim) matches Some(i) ==> 0 <= i < lim && flags[i],
    decreases lim,
{
    if lim > 0 {
        lemma_first_set_bounds(flags, lim - 1);
    }
}

/// First tape index within `[0, end]` whose flag is set.
pub fn first_touch(flags: &[bool], end: usize) -> (r: Option<usize>)
    ensures
        r == (match first_set(flags@, if end < flags@.len() { end + 1 } else { flags@.len() as int }) {
            Some(i) => Some(i as usize),
            None => None::<usize>,
        }),
{
    let lim: usize = if end < flags.len() { end + 1 } else { flags.len() };
    let mut i: usize = 0;
    while i < lim
        invariant
            i <= lim <= flags@.len(),
            lim == (if end < flags@.len() { end + 1 } else { flags@.len() as int }),
            first_set(flags@, i as int) is None,
        decreases lim - i,
    {
        if flags[i] {
            assert(first_set(flags@, i as int + 1) == Some(i as int));
            proof { lemma_first_set_prefix(flags@, i as int + 1, lim as int); }
            return Some(i);
        }
        i += 1;
    }
    None
}

proof fn lemma_first_set_prefix(flags: Seq<bool>, k: int, lim: int)
    requires
        0 <= k <= lim,
        first_set(flags, k) is Some,
    ensures
        first_set(flags, lim) == first_set(flags, k),
    decreases lim - k,
{
    if lim > k {
        lemma_first_set_prefix(flags, k, lim - 1);
    }
}

/// Which threshold was touched first; a touch of both on one bar counts as
/// the stop first (the order within a bar is unknowable).
pub open spec fn first_event_spec(up: Option<usize>, dn: Option<usize>) -> FirstEvent {
    match (up, dn) {
        (None, None) => FirstEvent::Neither,
        (Some(_), None) => FirstEvent::TargetFirst,
        (None, Some(_)) => FirstEvent::StopFirst,
        (Some(u), Some(d)) => if u < d { FirstEvent::TargetFirst } else { FirstEvent::StopFirst },
    }
}

pub fn first_event_of(up: Option<usize>, dn: Option<usize>) -> (r: FirstEvent)
    ensures
        r == first_event_spec(up, dn),
{
    match (up, dn) {
        (None, None) => FirstEvent::Neither,
        (Some(_), None) => FirstEvent::TargetFirst,
        (None, Some(_)) => FirstEvent::StopFirst,
        (Some(u), Some(d)) => if u < d { FirstEvent::TargetFirst } else { FirstEvent::StopFirst },
    }
}

/// Resolves one target/stop pair within the window `[0, end]` of the tape
/// from the per-bar touch flags (target: the bar's high reached it; stop:
/// the bar's low reached it). `thresholds_known` is false when a threshold
/// needs the ATR and there is none. Returns the event and the `hit` label
/// (`Some(true)` exactly for a target first).
pub fn resolve_pair(up_touch: &[bool], dn_touch: &[bool], end: Option<usize>, thresholds_known: bool) -> (r: (FirstEvent, Option<bool>))
    ensures
        match end {
            None => r == (FirstEvent::NoData, None::<bool>),
            Some(e) => if !thresholds_known {
                r == (FirstEvent::NoData, None::<bool>)
            } else {
                let lu = if e < up_touch@.len() { e + 1 } else { up_touch@.len() as int };
                let ld = if e < dn_touch@.len() { e + 1 } else { dn_touch@.len() as int };
                let up = match first_set(up_touch@, lu) { Some(i) => Some(i as usize), None => None::<usize> };
                let dn = match first_set(dn_touch@, ld) { Some(i) => Some(i as usize), None => None::<usize> };
                &&& r.0 == first_event_spec(up, dn)
                &&& r.1 == Some(r.0 == FirstEvent::TargetFirst)
            },
        },
{
    let e = match end {
        Some(e) => e,
        None => return (FirstEvent::NoData, None),
    };
    if !thresholds_known {
        return (FirstEvent::NoData, None);
    }
    let up = first_touch(up_touch, e);
    let dn = first_touch(dn_touch, e);
    let ev = first_event_of(up, dn);
    let hit = match ev {
        FirstEvent::TargetFirst => true,
        _ => false,
    };
    (ev, Some(hit))
}

/// What `first_set` finds: the earliest set flag below `lim`, or none.
proof fn lemma_first_set_is_earliest(flags: Seq<bool>, lim: int)
    requires
        0 <= lim <= flags.len(),
    ensures
        match first_set(flags, lim) {
            Some(i) => 0 <= i < lim && flags[i] && forall|k: int| 0 <= k < i ==> !flags[k],
            None => forall|k: int| 0 <= k < lim ==> !flags[k],
        },
    decreases lim,
{
    if lim > 0 {
        lemma_first_set_is_earliest(flags, lim - 1);
    }
}

/// Which threshold comes first, from the first touch bars: neither when
/// neither is touched; the target when it is touched and the stop is not
/// touched at or before that bar; the stop otherwise (a touch of both on
/// one bar counts as the stop). The result is never "no data".
pub proof fn law_first_event_orders_first_touches(up: Option<usize>, dn: Option<usize>)
    ensures
        (first_event_spec(up, dn) == FirstEvent::Neither) == (up is None && dn is None),
        (first_event_spec(up, dn) == FirstEvent::TargetFirst) == (up matches Some(u) && (dn matches Some(d) ==> u < d)),
        (first_event_spec(up, dn) == FirstEvent::StopFirst) == (dn matches Some(d) && (up matches Some(u) ==> d <= u)),
        first_event_spec(up, dn) != FirstEvent::NoData,
{
}

/// A resolved pair within the window `[0, e]` of the tape, in terms of the
/// touch flags: `neither` exactly when no bar of the window touches either
/// threshold; `target_first` exactly when some bar touches the target and
/// no bar up to and including it touches the stop; `stop_first` exactly
/// when some bar touches the stop and no earlier bar touches the target;
/// and the `hit` label is `Some(true)` exactly for `target_first`.
pub proof fn law_pair_follows_touches(up_touch: Seq<bool>, dn_touch: Seq<bool>, e: usize, r: (FirstEvent, Option<bool>))
    requires
        ({
            let lu = if e < up_touch.len() { e + 1 } else { up_touch.len() as int };
            let ld = if e < dn_touch.len() { e + 1 } else { dn_touch.len() as int };
            let up = match first_set(up_touch, lu) { Some(i) => Some(i as usize), None => None::<usize> };
            let dn = match first_set(dn_touch, ld) { Some(i) => Some(i as usize), None => None::<usize> };
            &&& r.0 == first_event_spec(up, dn)
            &&& r.1 == Some(r.0 == FirstEvent::TargetFirst)
        }),
    ensures
        r.1 == Some(r.0 == FirstEvent::TargetFirst),
        (r.0 == FirstEvent::Neither) == ((forall|k: int| 0 <= k <= e && k < up_touch.len() ==> !up_touch[k])
            && (forall|k: int| 0 <= k <= e && k < dn_touch.len() ==> !dn_touch[k])),
        (r.0 == FirstEvent::TargetFirst) == exists|i: int| 0 <= i <= e && i < up_touch.len() && #[trigger] up_touch[i]
            && forall|k: int| 0 <= k <= i && k < dn_touch.len() ==> !dn_touch[k],
        (r.0 == FirstEvent::StopFirst) == exists|j: int| 0 <= j <= e && j < dn_touch.len() && #[trigger] dn_touch[j]
            && forall|k: int| 0 <= k < j && k < up_touch.len() ==> !up_touch[k],
{
    let lu = if e < up_touch.len() { e + 1 } else { up_touch.len() as int };
    let ld = if e < dn_touch.len() { e + 1 } else { dn_touch.len() as int };
    lemma_first_set_is_earliest(up_touch, lu);
    lemma_first_set_is_earliest(dn_touch, ld);
    let fu = first_set(up_touch, lu);
    let fd = first_set(dn_touch, ld);
    let up = match fu { Some(i) => Some(i as usize), None => None::<usize> };
    let dn = match fd { Some(i) => Some(i as usize), None => None::<usize> };
    // The first touches as integers (both fit in usize: they are below e + 1).
    assert(fu matches Some(i) ==> up == Some(i as usize) && (i as usize) as int == i);
    assert(fd matches Some(i) ==> dn == Some(i as usize) && (i as usize) as int == i);
    // Target first.
    if exists|i: int| 0 <= i <= e && i < up_touch.len() && #[trigger] up_touch[i]
        && forall|k: int| 0 <= k <= i && k < dn_touch.len() ==> !dn_touch[k] {
        let i = choose|i: int| 0 <= i <= e && i < up_touch.len() && #[trigger] up_touch[i]
            && forall|k: int| 0 <= k <= i && k < dn_touch.len() ==> !dn_touch[k];
        assert(fu is Some);
        let u = fu.unwrap();
        assert(u <= i);
        if let Some(d) = fd {
            assert(d > i);
        }
        assert(r.0 == FirstEvent::TargetFirst);
    }
    if r.0 == FirstEvent::TargetFirst {
        let u = fu.unwrap();
        assert(up_touch[u]);
        assert forall|k: int| 0 <= k <= u && k < dn_touch.len() implies !dn_touch[k] by {
            if dn_touch[k] && k < ld {
                assert(fd is Some);
            }
        }
    }
    // Stop first.
    if exists|j: int| 0 <= j <= e && j < dn_touch.len() && #[trigger] dn_touch[j]
        && forall|k: int| 0 <= k < j && k < up_touch.len() ==> !up_touch[k] {
        let j = choose|j: int| 0 <= j <= e && j < dn_touch.len() && #[trigger] dn_touch[j]
            && forall|k: int| 0 <= k < j && k < up_touch.len() ==> !up_touch[k];
        assert(fd is Some);
        let d = fd.unwrap();
        assert(d <= j);
        if let Some(u) = fu {
            assert(u >= j);
        }
        assert(r.0 == FirstEvent::StopFirst);
    }
    if r.0 == FirstEvent::StopFirst {
        let d = fd.unwrap();
        assert(dn_touch[d]);
        assert forall|k: int| 0 <= k < d && k < up_touch.len() implies !up_touch[k] by {
            if up_touch[k] && k < lu {
                assert(fu is Some);
            }
        }
    }
    // Neither.
    if r.0 != FirstEvent::Neither {
        if fu is Some {
            let u = fu.unwrap();
            assert(up_touch[u]);
        } else {
            let d = fd.unwrap();
            assert(dn_touch[d]);
        }
    }
}

/// The 21-trading-day pair at daily resolution: no data unless 21 forward
/// days and the ATR are available; crossings after day 21 do not count.
pub fn resolve_daily_pair(forward_days: usize, atr_known: bool, up_day: Option<usize>, dn_day: Option<usize>) -> (r: (FirstEvent, Option<bool>))
    ensures
        (forward_days < 21 || !atr_known) ==> r == (FirstEvent::NoData, None::<bool>),
        !(forward_days < 21 || !atr_known) ==> {
            let up = match up_day { Some(i) => if i <= 21 { Some(i) } else { None::<usize> }, None => None::<usize> };
            let dn = match dn_day { Some(i) => if i <= 21 { Some(i) } else { None::<usize> }, None => None::<usize> };
            &&& r.0 == first_event_spec(up, dn)
            &&& r.1 == Some(r.0 == FirstEvent::TargetFirst)
        },
{
    if forward_days < 21 || !atr_known {
        return (FirstEvent::NoData, None);
    }
    let up = match up_day { Some(i) => if i <= 21 { Some(i) } else { None }, None => None };
    let dn = match dn_day { Some(i) => if i <= 21 { Some(i) } else { None }, None => None };
    let ev = first_event_of(up, dn);
    let hit = match ev {
        FirstEvent::TargetFirst => true,
        _ => false,
    };
    (ev, Some(hit))
}

/// First day index at which a daily series first meets its threshold:
/// `0` for the entry day, `k` for the `k`-th following day.
pub fn first_daily_cross(day0_hit: bool, hits: &[bool]) -> (r: Option<usize>)
    ensures
        r == (if day0_hit {
            Some(0usize)
        } else {
            match first_set(hits@, hits@.len() as int) { Some(i) => Some((i + 1) as usize), None => None::<usize> }
        }),
{
    if day0_hit {
        return Some(0);
    }
    let mut i: usize = 0;
    while i < hits.len()
        invariant
            i <= hits@.len(),
            !day0_hit,
            first_set(hits@, i as int) is None,
        decreases hits@.len() - i,
    {
        if hits[i] {
            assert(first_set(hits@, i as int + 1) == Some(i as int));
            proof { lemma_first_set_prefix(hits@, i as int + 1, hits@.len() as int); }
            return Some(i + 1);
        }
        i += 1;
    }
    None
}

/// Whether any dividend goes ex on or before the horizon's last day.
pub fn dividend_ex_within(ex_days: &[i32], last_day: i32) -> (r: bool)
    ensures
        r == exists|k: int| 0 <= k < ex_days@.len() && ex_days@[k] <= last_day,
{
    let mut i: usize = 0;
    while i < ex_days.len()
        invariant
            i <= ex_days@.len(),
            forall|k: int| 0 <= k < i ==> ex_days@[k] > last_day,
        decreases ex_days@.len() - i,
    {
        if ex_days[i] <= last_day {
            return true;
        }
        i += 1;
    }
    false
}


// ---------------------------------------------------------------------------
// Bar gaps
// ---------------------------------------------------------------------------

/// Whole minutes of a nanosecond duration, truncated toward zero.
pub open spec fn whole_minutes(d: int) -> int {
    if d >= 0 { d / NS_PER_MINUTE as int } else { -((-d) / NS_PER_MINUTE as int) }
}

/// Tape index `i` starts one of the following days (a gap before it is
/// overnight, not intraday).
pub open spec fn starts_later_day(bounds: Seq<Option<(usize, usize)>>, i: int) -> bool {
    exists|k: int| 1 <= k < bounds.len() && starts_at(#[trigger] bounds[k], i)
}

pub open spec fn starts_at(b: Option<(usize, usize)>, i: int) -> bool {
    match b {
        Some((st, _)) => st == i,
        None => false,
    }
}

/// Largest same-day gap, in whole minutes (as `i32`), between consecutive
/// bars up to tape index `i`; 0 when there is none larger.
pub open spec fn gap_prefix(times: Seq<i64>, bounds: Seq<Option<(usize, usize)>>, i: int) -> i32
    decreases i,
{
    if i <= 0 {
        0
    } else {
        let prev = gap_prefix(times, bounds, i - 1);
        if starts_later_day(bounds, i) {
            prev
        } else {
            let g = whole_minutes(times[i] - times[i - 1]) as i32;
            if g > prev { g } else { prev }
        }
    }
}

fn starts_later_day_exec(bounds: &Vec<Option<(usize, usize)>>, i: usize) -> (r: bool)
    ensures
        r == starts_later_day(bounds@, i as int),
{
    let mut k: usize = 1;
    while k < bounds.len()
        invariant
            1 <= k <= bounds@.len() || bounds@.len() == 0,
            k >= 1,
            forall|j: int| 1 <= j < k && j < bounds@.len() ==> !starts_at(#[trigger] bounds@[j], i as int),
        decreases bounds@.len() - k,
    {
        match bounds[k] {
            Some((st, _)) => if st == i {
                assert(starts_at(bounds@[k as int], i as int));
                return true;
            },
            None => {},
        }
        k += 1;
    }
    proof {
        assert forall|j: int| 1 <= j < bounds@.len() implies !starts_at(#[trigger] bounds@[j], i as int) by {}
    }
    false
}

/// Largest same-day gap between consecutive bars within each short
/// horizon's window, then `None` for the five daily-resolution horizons.
pub fn bar_gap_max(times: &[i64], ends: &Vec<Option<usize>>, bounds: &Vec<Option<(usize, usize)>>) -> (r: Vec<Option<i32>>)
    requires
        forall|k: int| 0 <= k < ends@.len() ==> (#[trigger] ends@[k] matches Some(e) ==> e < times@.len()),
    ensures
        r@.len() == ends@.len() + 5,
        forall|k: int| 0 <= k < ends@.len() ==> #[trigger] r@[k] == (match ends@[k] {
            Some(e) => Some(gap_prefix(times@, bounds@, e as int)),
            None => None::<i32>,
        }),
        forall|k: int| ends@.len() <= k < r@.len() ==> (#[trigger] r@[k]) is None,
{
    let mut prefix: Vec<i32> = Vec::new();
    let mut run: i32 = 0;
    let mut i: usize = 0;
    while i < times.len()
        invariant
            i <= times@.len(),
            prefix@.len() == i,
            i > 0 ==> run == gap_prefix(times@, bounds@, i - 1),
            i == 0 ==> run == 0,
            forall|j: int| 0 <= j < i ==> #[trigger] prefix@[j] == gap_prefix(times@, bounds@, j),
        decreases times@.len() - i,
    {
        if i > 0 && !starts_later_day_exec(bounds, i) {
            let d: i128 = times[i] as i128 - times[i - 1] as i128;
            let m: i128 = if d >= 0 {
                (d as u128 / 60_000_000_000u128) as i128
            } else {
                -(((-d) as u128 / 60_000_000_000u128) as i128)
            };
            assert(m == whole_minutes(times@[i as int] - times@[i - 1]));
            let g: i32 = m as i32;
            if g > run {
                run = g;
            }
        }
        prefix.push(run);
        i += 1;
    }
    let mut r: Vec<Option<i32>> = Vec::new();
    let mut k: usize = 0;
    while k < ends.len()
        invariant
            k <= ends@.len(),
            prefix@.len() == times@.len(),
            forall|j: int| 0 <= j < times@.len() ==> #[trigger] prefix@[j] == gap_prefix(times@, bounds@, j),
            forall|j: int| 0 <= j < ends@.len() ==> (#[trigger] ends@[j] matches Some(e) ==> e < times@.len()),
            r@.len() == k,
            forall|j: int| 0 <= j < k ==> #[trigger] r@[j] == (match ends@[j] {
                Some(e) => Some(gap_prefix(times@, bounds@, e as int)),
                None => None::<i32>,
            }),
        decreases ends@.len() - k,
    {
        let v = match ends[k] {
            Some(e) => Some(prefix[e]),
            None => None,
        };
        r.push(v);
        k += 1;
    }
    let mut t: usize = 0;
    while t < 5
        invariant
            t <= 5,
            r@.len() == ends@.len() + t,
            forall|j: int| 0 <= j < ends@.len() ==> #[trigger] r@[j] == (match ends@[j] {
                Some(e) => Some(gap_prefix(times@, bounds@, e as int)),
                None => None::<i32>,
            }),
            forall|j: int| ends@.len() <= j < r@.len() ==> (#[trigger] r@[j]) is None,
        decreases 5 - t,
    {
        r.push(None);
        t += 1;
    }
    r
}


// ---------------------------------------------------------------------------
// Path checkpoints
// ---------------------------------------------------------------------------

/// One path checkpoint's window end.
#[derive(Debug, Clone, Copy, PartialEq, Eq, Structural)]
pub enum Checkpoint {
    /// `<N>m`: minutes from entry within the entry day.
    Minutes(i64),
    /// `EOD`: the entry day's close.
    Eod,
    /// `<K>d_open`: the first bar of the `K`-th following day.
    DayOpen(usize),
    /// `1d_30m`: the last bar of the `K`-th following day within the given
    /// minutes of its first bar.
    DayPlus(usize, i64),
    /// `<K>d_close`: the last bar of the `K`-th following day.
    DayClose(usize),
}

/// The path checkpoints v1, in order (labels `1m` … `180m`, `EOD`,
/// `1d_open`, `1d_30m`, `1d_close`, `2d_open`, `2d_close`, `3d_open`,
/// `3d_close`, `5d_open`, `5d_close`).
pub open spec fn checkpoint_plan() -> Seq<Checkpoint> {
    seq![
        Checkpoint::Minutes(1), Checkpoint::Minutes(2), Checkpoint::Minutes(3),
        Checkpoint::Minutes(5), Checkpoint::Minutes(10), Checkpoint::Minutes(15),
        Checkpoint::Minutes(20), Checkpoint::Minutes(30), Checkpoint::Minutes(45),
        Checkpoint::Minutes(60), Checkpoint::Minutes(90), Checkpoint::Minutes(120),
        Checkpoint::Minutes(180), Checkpoint::Eod,
        Checkpoint::DayOpen(1), Checkpoint::DayPlus(1, 30), Checkpoint::DayClose(1),
        Checkpoint::DayOpen(2), Checkpoint::DayClose(2),
        Checkpoint::DayOpen(3), Checkpoint::DayClose(3),
        Checkpoint::DayOpen(5), Checkpoint::DayClose(5),
    ]
}

pub fn path_checkpoints() -> (r: Vec<Checkpoint>)
    ensures
        r@ == checkpoint_plan(),
{
    let r = vec![
        Checkpoint::Minutes(1), Checkpoint::Minutes(2), Checkpoint::Minutes(3),
        Checkpoint::Minutes(5), Checkpoint::Minutes(10), Checkpoint::Minutes(15),
        Checkpoint::Minutes(20), Checkpoint::Minutes(30), Checkpoint::Minutes(45),
        Checkpoint::Minutes(60), Checkpoint::Minutes(90), Checkpoint::Minutes(120),
        Checkpoint::Minutes(180), Checkpoint::Eod,
        Checkpoint::DayOpen(1), Checkpoint::DayPlus(1, 30), Checkpoint::DayClose(1),
        Checkpoint::DayOpen(2), Checkpoint::DayClose(2),
        Checkpoint::DayOpen(3), Checkpoint::DayClose(3),
        Checkpoint::DayOpen(5), Checkpoint::DayClose(5),
    ];
    assert(r@ =~= checkpoint_plan());
    r
}

/// First index in `[lo, lim)` whose time is after `cutoff`, else `lim`.
pub open spec fn first_after_from(times: Seq<i64>, lo: int, lim: int, cutoff: int) -> int
    decreases lim - lo,
{
    if lim <= lo {
        lo
    } else if first_after_from(times, lo, lim - 1, cutoff) < lim - 1 {
        first_after_from(times, lo, lim - 1, cutoff)
    } else if times[lim - 1] > cutoff {
        lim - 1
    } else {
        lim
    }
}

pub open spec fn checkpoint_end_spec(times: Seq<i64>, bounds: Seq<Option<(usize, usize)>>, entry_t: i64, cp: Checkpoint) -> Option<usize> {
    let day0_close = match bounds[0] { Some((_, c)) => Some(c), None => None };
    match cp {
        Checkpoint::Minutes(m) => intraday_end_spec(times, day0_close, entry_t, m),
        Checkpoint::Eod => day0_close,
        Checkpoint::DayOpen(k) => match bounds[k as int] { Some((st, _)) => Some(st), None => None },
        Checkpoint::DayClose(k) => match bounds[k as int] { Some((_, c)) => Some(c), None => None },
        Checkpoint::DayPlus(k, m) => match bounds[k as int] {
            Some((st, c)) => {
                let lim = if c + 1 < times.len() { c + 1 } else { times.len() as int };
                let f = first_after_from(times, st as int, lim, times[st as int] + m * NS_PER_MINUTE);
                if f == st { None } else { Some((f - 1) as usize) }
            },
            None => None,
        },
    }
}

proof fn lemma_first_after_from_stays(times: Seq<i64>, lo: int, k: int, lim: int, cutoff: int)
    requires
        lo <= k < lim <= times.len(),
        first_after_from(times, lo, k + 1, cutoff) == k,
    ensures
        first_after_from(times, lo, lim, cutoff) == k,
    decreases lim - k,
{
    if lim > k + 1 {
        lemma_first_after_from_stays(times, lo, k, lim - 1, cutoff);
    }
}

/// The last index `i` in `[lo, lim)` such that every time in `[lo, i]` is
/// at most `cutoff`.
fn last_within(times: &[i64], lo: usize, lim: usize, cutoff: i128) -> (r: Option<usize>)
    requires
        lo < lim <= times@.len(),
    ensures
        ({
            let f = first_after_from(times@, lo as int, lim as int, cutoff as int);
            r == if f == lo { None::<usize> } else { Some((f - 1) as usize) }
        }),
{
    let mut last: Option<usize> = None;
    let mut i: usize = lo;
    while i < lim
        invariant
            lo <= i <= lim <= times@.len(),
            lo < lim,
            first_after_from(times@, lo as int, i as int, cutoff as int) == i,
            last == (if i == lo { None } else { Some((i - 1) as usize) }),
        decreases lim - i,
    {
        assert(first_after_from(times@, lo as int, i as int + 1, cutoff as int)
            == if times@[i as int] > cutoff { i as int } else { i as int + 1 });
        if (times[i] as i128) <= cutoff {
            last = Some(i);
        } else {
            proof { lemma_first_after_from_stays(times@, lo as int, i as int, lim as int, cutoff as int); }
            return last;
        }
        i += 1;
    }
    last
}

/// Window end of each path checkpoint on the tape.
pub fn checkpoint_ends(times: &[i64], bounds: &Vec<Option<(usize, usize)>>, entry_t: i64) -> (r: Vec<Option<usize>>)
    requires
        bounds@.len() == 6,
        forall|k: int| 0 <= k < 6 ==> (#[trigger] bounds@[k] matches Some((st, c)) ==> st <= c && c < times@.len()),
    ensures
        r@.len() == checkpoint_plan().len(),
        forall|j: int| 0 <= j < r@.len() ==> #[trigger] r@[j] == checkpoint_end_spec(times@, bounds@, entry_t, checkpoint_plan()[j]),
{
    let plan = path_checkpoints();
    let day0_close = match bounds[0] { Some((_, c)) => Some(c), None => None };
    let mut r: Vec<Option<usize>> = Vec::new();
    let mut j: usize = 0;
    while j < plan.len()
        invariant
            plan@ == checkpoint_plan(),
            bounds@.len() == 6,
            forall|k: int| 0 <= k < 6 ==> (#[trigger] bounds@[k] matches Some((st, c)) ==> st <= c && c < times@.len()),
            day0_close == (match bounds@[0] { Some((_, c)) => Some(c), None => None::<usize> }),
            j <= plan@.len(),
            r@.len() == j,
            forall|i: int| 0 <= i < j ==> #[trigger] r@[i] == checkpoint_end_spec(times@, bounds@, entry_t, checkpoint_plan()[i]),
        decreases plan@.len() - j,
    {
        let cp = plan[j];
        let e = match cp {
            Checkpoint::Minutes(m) => intraday_end(times, day0_close, entry_t, m),
            Checkpoint::Eod => day0_close,
            Checkpoint::DayOpen(k) => {
                assert(k < 6);
                match bounds[k] { Some((st, _)) => Some(st), None => None }
            },
            Checkpoint::DayClose(k) => {
                assert(k < 6);
                match bounds[k] { Some((_, c)) => Some(c), None => None }
            },
            Checkpoint::DayPlus(k, m) => {
                assert(k < 6 && 0 <= m <= 30);
                match bounds[k] {
                    Some((st, c)) => {
                        assert(bounds@[k as int] matches Some((st2, c2)) && st2 <= c2 && c2 < times@.len());
                        let cutoff: i128 = times[st] as i128 + m as i128 * NS_PER_MINUTE;
                        let lim: usize = if c < times.len() - 1 { c + 1 } else { times.len() };
                        last_within(times, st, lim, cutoff)
                    },
                    None => None,
                }
            },
        };
        r.push(e);
        j += 1;
    }
    r
}


// ---------------------------------------------------------------------------
// Laws
// ---------------------------------------------------------------------------

/// Every bar closes above, below or at the entry price: the three counts
/// add up to the window length, and no run is longer than its side's count.
pub proof fn law_underwater_counts_partition_the_window(s: Seq<CloseSide>)
    ensures
        count_side(s, CloseSide::Above) + count_side(s, CloseSide::Below) + count_side(s, CloseSide::Flat) == s.len(),
        longest_run(s, CloseSide::Above) <= count_side(s, CloseSide::Above),
        longest_run(s, CloseSide::Below) <= count_side(s, CloseSide::Below),
    decreases s.len(),
{
    if s.len() > 0 {
        law_underwater_counts_partition_the_window(s.drop_last());
        lemma_trailing_run_le_count(s, CloseSide::Above);
        lemma_trailing_run_le_count(s, CloseSide::Below);
    }
}

proof fn lemma_trailing_run_le_count(s: Seq<CloseSide>, side: CloseSide)
    ensures
        trailing_run(s, side) <= count_side(s, side),
    decreases s.len(),
{
    if s.len() > 0 {
        lemma_trailing_run_le_count(s.drop_last(), side);
    }
}

/// The recovery time is never negative and never reaches the window
/// length.
pub proof fn law_recovery_time_within_window(s: Seq<CloseSide>)
    ensures
        0 <= time_to_recover(s),
        s.len() > 0 ==> time_to_recover(s) < s.len(),
{
    lemma_recovery_after_below(s);
}

proof fn lemma_first_after_monotone_cutoff(times: Seq<i64>, lim: int, c1: int, c2: int)
    requires
        c1 <= c2,
    ensures
        first_after(times, lim, c1) <= first_after(times, lim, c2),
        lim >= 0 ==> 0 <= first_after(times, lim, c1) <= lim,
        lim >= 0 ==> 0 <= first_after(times, lim, c2) <= lim,
    decreases lim,
{
    if lim > 0 {
        lemma_first_after_monotone_cutoff(times, lim - 1, c1, c2);
    }
}

/// A longer intraday horizon ends no earlier on the tape than a shorter
/// one.
pub proof fn law_longer_horizon_ends_no_earlier(times: Seq<i64>, day0_close: Option<usize>, entry_t: i64, m1: i64, m2: i64)
    requires
        m1 <= m2,
    ensures
        intraday_end_spec(times, day0_close, entry_t, m1) matches Some(e1) ==>
            intraday_end_spec(times, day0_close, entry_t, m2) matches Some(e2) && e1 <= e2,
{
    if let Some(upper) = day0_close {
        let lim = if upper + 1 < times.len() { upper + 1 } else { times.len() as int };
        assert(entry_t + m1 * NS_PER_MINUTE <= entry_t + m2 * NS_PER_MINUTE) by (nonlinear_arith)
            requires m1 <= m2;
        lemma_first_after_monotone_cutoff(times, lim, entry_t + m1 * NS_PER_MINUTE, entry_t + m2 * NS_PER_MINUTE);
    }
}

/// The `hit` label of a resolved pair is true exactly for a target first,
/// and is missing exactly when there is no data.
pub proof fn law_hit_matches_first_event(r: (FirstEvent, Option<bool>))
    requires
        r == (FirstEvent::NoData, None::<bool>) || r.1 == Some(r.0 == FirstEvent::TargetFirst) && r.0 != FirstEvent::NoData,
    ensures
        r.1 == Some(true) <==> r.0 == FirstEvent::TargetFirst,
        r.1 is None <==> r.0 == FirstEvent::NoData,
{
}

} // verus!
