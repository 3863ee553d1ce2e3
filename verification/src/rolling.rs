//! The incremental counters of a security's trailing state: days on
//! record, the last day a close-to-close move reached each threshold, the
//! current streak of up closes, and whether the default signal fired on
//! each of the last (up to) 252 days.
//!
//! Each pushed day carries how its close compared with the previous one
//! and whether its signal fired (both computed where the prices are); the
//! counters serve the day being processed, so everything they report is
//! strictly about earlier days.

use vstd::prelude::*;

verus! {

/// Number of move thresholds tracked (5%, 10% and 20% close-to-close).
pub const MOVE_THRESHOLD_COUNT: usize = 3;

/// Trading days of signal history kept per security.
pub const SIGNAL_WINDOW: usize = 252;

/// The window kept after appending `flag` to `kept`: the last
/// `SIGNAL_WINDOW` entries.
pub open spec fn window_after(kept: Seq<bool>, flag: bool) -> Seq<bool> {
    let all = kept.push(flag);
    if all.len() > SIGNAL_WINDOW {
        all.subrange(all.len() - SIGNAL_WINDOW, all.len() as int)
    } else {
        all
    }
}

/// Whether any of the last `n` entries of `flags` is set.
pub open spec fn any_in_last(flags: Seq<bool>, n: int) -> bool {
    exists|k: int| flags.len() - n <= k < flags.len() && 0 <= k && #[trigger] flags[k]
}

/// How a day's close compared with the previous day's close.
#[derive(Debug, Clone, Copy, PartialEq, Eq)]
pub struct CloseMove {
    /// The close was higher.
    pub up: bool,
    /// The absolute return reached each threshold.
    pub reached: [bool; 3],
}

pub struct MoveCounters {
    first_bar_day: i32,
    total_days: u32,
    last_move_at: [Option<u32>; 3],
    consecutive_up: i32,
    fired: Vec<bool>,
}

/// `after` is `before` with one more day pushed, whose close moved as `mv`
/// and whose signal fired iff `signal`.
pub open spec fn pushes_to(before: MoveCounters, mv: Option<CloseMove>, signal: bool, after: MoveCounters) -> bool {
    &&& after.first_day() == before.first_day()
    &&& after.total() == before.total() + 1
    &&& after.signals() == window_after(before.signals(), signal)
    &&& match mv {
        None => {
            &&& after.up_streak() == before.up_streak()
            &&& forall|i: int| 0 <= i < 3 ==> #[trigger] after.last_move(i) == before.last_move(i)
        },
        Some(m) => {
            &&& after.up_streak() == (if m.up { before.up_streak() + 1 } else { 0 })
            &&& forall|i: int| 0 <= i < 3 ==> #[trigger] after.last_move(i) == (if m.reached@[i] {
                Some((before.total() + 1) as u32)
            } else {
                before.last_move(i)
            })
        },
    }
}

impl MoveCounters {
    #[verifier::type_invariant]
    spec fn wf(self) -> bool {
        &&& forall|i: int| 0 <= i < 3 ==> (#[trigger] self.last_move_at@[i] matches Some(at) ==> 1 <= at <= self.total_days)
        &&& self.fired@.len() <= SIGNAL_WINDOW
    }

    /// Day number of the security's first bar.
    pub closed spec fn first_day(self) -> i32 {
        self.first_bar_day
    }

    /// Days pushed so far.
    pub closed spec fn total(self) -> u32 {
        self.total_days
    }

    /// Day count (1-based) at the push that last reached threshold `i`.
    pub closed spec fn last_move(self, i: int) -> Option<u32> {
        self.last_move_at@[i]
    }

    pub closed spec fn up_streak(self) -> i32 {
        self.consecutive_up
    }

    /// Signal flags of the kept days, oldest first.
    pub closed spec fn signals(self) -> Seq<bool> {
        self.fired@
    }

    pub fn new(first_bar_day: i32) -> (r: Self)
        ensures
            r.first_day() == first_bar_day,
            r.total() == 0,
            r.up_streak() == 0,
            forall|i: int| 0 <= i < 3 ==> r.last_move(i) is None,
            r.signals() == Seq::<bool>::empty(),
    {
        MoveCounters { first_bar_day, total_days: 0, last_move_at: [None, None, None], consecutive_up: 0, fired: Vec::new() }
    }

    /// Pushes a day: `mv` is `None` for a security's first day (no previous
    /// close to compare with); `signal` says whether its signal fired.
    pub fn push(&mut self, mv: Option<CloseMove>, signal: bool)
        requires
            old(self).total() < u32::MAX,
            old(self).up_streak() < i32::MAX,
        ensures
            pushes_to(*old(self), mv, signal, *final(self)),
    {
        proof { use_type_invariant(&*self); }
        let total = self.total_days + 1;
        let mut marks = self.last_move_at;
        let mut streak = self.consecutive_up;
        match mv {
            Some(m) => {
                let mut i: usize = 0;
                while i < 3
                    invariant
                        i <= 3,
                        1 <= total,
                        forall|j: int| 0 <= j < i ==> #[trigger] marks@[j] == (if m.reached@[j] { Some(total) } else { self.last_move_at@[j] }),
                        forall|j: int| i <= j < 3 ==> #[trigger] marks@[j] == self.last_move_at@[j],
                    decreases 3 - i,
                {
                    if m.reached[i] {
                        marks[i] = Some(total);
                    }
                    i += 1;
                }
                streak = if m.up { streak + 1 } else { 0 };
            },
            None => {},
        }
        proof {
            assert forall|i: int| 0 <= i < 3 implies (#[trigger] marks@[i] matches Some(at) ==> 1 <= at <= total) by {
                assert(self.last_move_at@[i] matches Some(at) ==> 1 <= at <= self.total_days);
            }
        }
        let mut fired = self.fired.clone();
        fired.push(signal);
        if fired.len() > SIGNAL_WINDOW {
            fired.remove(0);
        }
        proof {
            assert(fired@ =~= window_after(self.fired@, signal));
        }
        *self = MoveCounters { first_bar_day: self.first_bar_day, total_days: total, last_move_at: marks, consecutive_up: streak, fired };
    }

    pub fn first_bar_day(&self) -> (r: i32)
        ensures
            r == self.first_day(),
    {
        self.first_bar_day
    }

    /// Trading days between the first bar and the day being processed.
    pub fn days_since_first_bar(&self) -> (r: i32)
        ensures
            r == self.total() as i32,
    {
        self.total_days as i32
    }

    /// Trading days since the close that last reached threshold `idx` (a
    /// move completed yesterday gives 1); `None` when none is on record.
    pub fn days_since_move(&self, idx: usize) -> (r: Option<i32>)
        requires
            idx < 3,
            self.last_move(idx as int) matches Some(at) ==> ((self.total() - at) as i32) < i32::MAX,
        ensures
            r == (match self.last_move(idx as int) {
                Some(at) => Some((((self.total() - at) as i32) + 1) as i32),
                None => None::<i32>,
            }),
    {
        proof { use_type_invariant(self); }
        match self.last_move_at[idx] {
            Some(at) => Some((self.total_days - at) as i32 + 1),
            None => None,
        }
    }

    pub fn consecutive_up_days(&self) -> (r: i32)
        ensures
            r == self.up_streak(),
    {
        self.consecutive_up
    }

    /// Whether the signal fired on any of the last `n` kept days; `None`
    /// when fewer than `n` days are kept (the question cannot be settled).
    pub fn signal_fired_in_last(&self, n: usize) -> (r: Option<bool>)
        ensures
            r == (if self.signals().len() < n { None::<bool> } else { Some(any_in_last(self.signals(), n as int)) }),
    {
        let len = self.fired.len();
        if len < n {
            return None;
        }
        let mut k: usize = len - n;
        while k < len
            invariant
                len == self.fired@.len(),
                n <= len,
                len - n <= k <= len,
                forall|j: int| len - n <= j < k ==> !#[trigger] self.fired@[j],
            decreases len - k,
        {
            if self.fired[k] {
                return Some(true);
            }
            k += 1;
        }
        Some(false)
    }
}

/// A move reached by the latest pushed close is one day old for the day
/// being processed next.
pub proof fn law_fresh_move_is_one_day_old(before: MoveCounters, m: CloseMove, signal: bool, after: MoveCounters, i: int)
    requires
        0 <= i < 3,
        m.reached@[i],
        pushes_to(before, Some(m), signal, after),
    ensures
        after.last_move(i) == Some(after.total()),
{
}

/// A day whose close did not rise ends the up streak.
pub proof fn law_streak_resets_on_a_down_close(before: MoveCounters, m: CloseMove, signal: bool, after: MoveCounters)
    requires
        !m.up,
        pushes_to(before, Some(m), signal, after),
    ensures
        after.up_streak() == 0,
{
}

/// The latest pushed day is always in the window: a day whose signal fired
/// makes `signal_fired_in_last(1)` true for the next day.
pub proof fn law_latest_signal_is_kept(before: MoveCounters, mv: Option<CloseMove>, signal: bool, after: MoveCounters)
    requires
        pushes_to(before, mv, signal, after),
    ensures
        after.signals().len() >= 1,
        after.signals().last() == signal,
        signal ==> any_in_last(after.signals(), 1),
{
    let w = after.signals();
    assert(w[w.len() - 1] == signal);
}

/// The window holds every pushed day until it is full.
pub proof fn law_window_grows_until_full(before: MoveCounters, mv: Option<CloseMove>, signal: bool, after: MoveCounters)
    requires
        pushes_to(before, mv, signal, after),
    ensures
        after.signals().len() == (if before.signals().len() < SIGNAL_WINDOW { before.signals().len() + 1 } else { SIGNAL_WINDOW as nat }),
{
}

} // verus!
