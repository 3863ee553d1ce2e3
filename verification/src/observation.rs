//! The bar-count and calendar fields of a security's daily observation:
//! how many bars each session window holds, when the first regular-session
//! bar printed, and whether the day is a half day. Times are UTC
//! nanoseconds; windows are half-open `[start, end)` over time-sorted bars.

use vstd::prelude::*;
use crate::dates::{et, et_clock, ny_local_to_utc_ns, ny_wall_clock};
use crate::slices::{nondecreasing, slice_bounds, window_of, NS_PER_MIN};
use crate::text::string_of;
use crate::tools::{push_zero_padded, zero_padded};

verus! {

/// The day's window instants.
#[derive(Debug, Clone, Copy, PartialEq, Eq)]
pub struct B0Windows {
    /// 04:00 ET.
    pub premarket_start: i64,
    /// 09:30 ET.
    pub rth_open: i64,
    /// 10:00 ET.
    pub first_30m_end: i64,
    /// 10:30 ET.
    pub first_hour_end: i64,
    /// One minute past the session close (the close is the last bar's
    /// start).
    pub rth_end: i64,
}

/// The windows of `day` with the given session close; `None` when one of
/// the ET clock times does not exist on the day.
pub fn b0_windows(day: i32, session_close: i64) -> (r: Option<B0Windows>)
    requires
        session_close <= i64::MAX - NS_PER_MIN,
    ensures
        match (ny_local_to_utc_ns(day, 4, 0), ny_local_to_utc_ns(day, 9, 30), ny_local_to_utc_ns(day, 10, 0), ny_local_to_utc_ns(day, 10, 30)) {
            (Some(a), Some(b), Some(c), Some(d)) => r == Some(
                B0Windows { premarket_start: a, rth_open: b, first_30m_end: c, first_hour_end: d, rth_end: (session_close + NS_PER_MIN) as i64 },
            ),
            _ => r is None,
        },
{
    match (et(day, 4, 0), et(day, 9, 30), et(day, 10, 0), et(day, 10, 30)) {
        (Some(a), Some(b), Some(c), Some(d)) => Some(
            B0Windows { premarket_start: a, rth_open: b, first_30m_end: c, first_hour_end: d, rth_end: session_close + NS_PER_MIN },
        ),
        _ => None,
    }
}

/// Bar counts and first-bar facts of one security's day.
#[derive(Debug, Clone, Copy, PartialEq, Eq)]
pub struct B0Counts {
    /// Index range of the regular-session bars `[09:30, close + 1 min)`.
    pub rth: (usize, usize),
    /// Index range of the first-hour bars `[09:30, 10:30)`.
    pub first_hour: (usize, usize),
    /// Index range of the first 30 minutes `[09:30, 10:00)`.
    pub first_30m: (usize, usize),
    /// Index range of the pre-market bars `[04:00, 09:30)`.
    pub premarket: (usize, usize),
    pub bar_count_rth: i32,
    pub bar_count_first_hour: i32,
    pub bar_count_first_30m: i32,
    pub bar_count_premarket: i32,
    /// Whole minutes from 09:30 ET to the first regular-session bar.
    pub minutes_after_open_first_bar: Option<i32>,
}

/// The counts and first-bar facts of a day's time-sorted bars.
pub fn b0_counts(times: &[i64], w: &B0Windows) -> (r: B0Counts)
    requires
        nondecreasing(times@),
        times@.len() <= i32::MAX,
        w.premarket_start <= w.rth_open <= w.first_30m_end <= w.first_hour_end <= w.rth_end,
    ensures
        window_of(times@, w.rth_open as int, w.rth_end as int, r.rth),
        window_of(times@, w.rth_open as int, w.first_hour_end as int, r.first_hour),
        window_of(times@, w.rth_open as int, w.first_30m_end as int, r.first_30m),
        window_of(times@, w.premarket_start as int, w.rth_open as int, r.premarket),
        r.rth.0 <= r.rth.1 && r.first_hour.0 <= r.first_hour.1,
        r.first_30m.0 <= r.first_30m.1 && r.premarket.0 <= r.premarket.1,
        r.bar_count_rth == r.rth.1 - r.rth.0,
        r.bar_count_first_hour == r.first_hour.1 - r.first_hour.0,
        r.bar_count_first_30m == r.first_30m.1 - r.first_30m.0,
        r.bar_count_premarket == r.premarket.1 - r.premarket.0,
        r.minutes_after_open_first_bar == (if r.rth.0 < r.rth.1 {
            Some(((times@[r.rth.0 as int] - w.rth_open) / NS_PER_MIN as int) as i32)
        } else {
            None::<i32>
        }),
{
    let rth = slice_bounds(times, w.rth_open, w.rth_end);
    let first_hour = slice_bounds(times, w.rth_open, w.first_hour_end);
    let first_30m = slice_bounds(times, w.rth_open, w.first_30m_end);
    let premarket = slice_bounds(times, w.premarket_start, w.rth_open);
    let minutes = if rth.0 < rth.1 {
        let d: i128 = times[rth.0] as i128 - w.rth_open as i128;
        Some((d / (NS_PER_MIN as i128)) as i32)
    } else {
        None
    };
    B0Counts {
        rth,
        first_hour,
        first_30m,
        premarket,
        bar_count_rth: (rth.1 - rth.0) as i32,
        bar_count_first_hour: (first_hour.1 - first_hour.0) as i32,
        bar_count_first_30m: (first_30m.1 - first_30m.0) as i32,
        bar_count_premarket: (premarket.1 - premarket.0) as i32,
        minutes_after_open_first_bar: minutes,
    }
}

/// ET wall-clock `HH:MM` of an instant.
pub open spec fn hh_mm_text(ns: i64) -> Seq<char> {
    let sod = ny_wall_clock(ns).1;
    zero_padded((sod / 3600) as nat, 2) + ":"@ + zero_padded(((sod % 3600) / 60) as nat, 2)
}

/// The ET wall-clock `HH:MM` of an instant (the first bar's print time).
pub fn et_hh_mm(ns: i64) -> (r: String)
    ensures
        r@ == hh_mm_text(ns),
{
    let c = et_clock(ns);
    let h = c.second_of_day / 3600;
    let m = (c.second_of_day % 3600) / 60;
    let mut out: Vec<char> = Vec::new();
    push_zero_padded(&mut out, h as u64, 2);
    out.push(':');
    push_zero_padded(&mut out, m as u64, 2);
    proof { reveal_strlit(":"); }
    assert(out@ =~= hh_mm_text(ns));
    string_of(&out)
}

/// A session closing before 14:00 ET is a half day (half days close at
/// 13:00 ET; full days' last bar is at 15:59 or 16:00 ET).
pub fn is_half_day(session_close: i64) -> (r: bool)
    ensures
        r == (ny_wall_clock(session_close).1 / 3600 < 14),
{
    et_clock(session_close).second_of_day / 3600 < 14
}

} // verus!
