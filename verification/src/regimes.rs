//! The calendar side of `regime_definitions`: the fixed era labels, the
//! exploration window on which the tertile boundaries are fitted, and the
//! trailing look-back of the SPY trend.
//!
//! Days without the underlying metric get no row for that taxonomy; the
//! tertiles themselves are fitted on fractional metrics by the caller.

use vstd::prelude::*;
use crate::dates::{chrono_parse_ymd, parse_ymd};

verus! {

pub const EXPLORATION_START: &'static str = "2016-06-08";
pub const EXPLORATION_END: &'static str = "2020-12-31";
pub const TAXONOMY_VERSION: &'static str = crate::versions::REGIME_TAXONOMY_VERSION;

/// Last day of the `zirp_bull` era (2019-12-31, as a day number).
pub const ZIRP_BULL_LAST_DAY: i32 = 737_424;
/// Last day of the `covid_meme` era (2022-06-30).
pub const COVID_MEME_LAST_DAY: i32 = 738_336;
/// Last day of the `rate_shock_ai` era (2024-12-31).
pub const RATE_SHOCK_AI_LAST_DAY: i32 = 739_251;

/// Trading days of history behind the SPY trend return.
pub const SPY_TREND_LOOKBACK: usize = 63;

/// The fixed era of a day: id and name.
pub open spec fn era_spec(day: i32) -> (i32, Seq<char>) {
    if day <= ZIRP_BULL_LAST_DAY {
        (1, "zirp_bull"@)
    } else if day <= COVID_MEME_LAST_DAY {
        (2, "covid_meme"@)
    } else if day <= RATE_SHOCK_AI_LAST_DAY {
        (3, "rate_shock_ai"@)
    } else {
        (4, "recent"@)
    }
}

pub fn era_of(day: i32) -> (r: (i32, &'static str))
    ensures
        (r.0, r.1@) == era_spec(day),
{
    if day <= ZIRP_BULL_LAST_DAY {
        (1, "zirp_bull")
    } else if day <= COVID_MEME_LAST_DAY {
        (2, "covid_meme")
    } else if day <= RATE_SHOCK_AI_LAST_DAY {
        (3, "rate_shock_ai")
    } else {
        (4, "recent")
    }
}

/// One `(day, taxonomy, regime)` row.
#[derive(Debug, Clone, PartialEq, Eq)]
pub struct RegimeAssignment {
    pub day: i32,
    pub taxonomy: &'static str,
    pub regime_id: i32,
    pub regime_name: &'static str,
}

/// The `era` row of each day, in order.
pub fn era_assignments(days: &Vec<i32>) -> (r: Vec<RegimeAssignment>)
    ensures
        r@.len() == days@.len(),
        forall|k: int| 0 <= k < days@.len() ==> {
            &&& (#[trigger] r@[k]).day == days@[k]
            &&& r@[k].taxonomy@ == "era"@
            &&& (r@[k].regime_id, r@[k].regime_name@) == era_spec(days@[k])
        },
{
    let mut r: Vec<RegimeAssignment> = Vec::new();
    let mut i: usize = 0;
    while i < days.len()
        invariant
            i <= days@.len(),
            r@.len() == i,
            forall|k: int| 0 <= k < i ==> {
                &&& (#[trigger] r@[k]).day == days@[k]
                &&& r@[k].taxonomy@ == "era"@
                &&& (r@[k].regime_id, r@[k].regime_name@) == era_spec(days@[k])
            },
        decreases days@.len() - i,
    {
        let (id, name) = era_of(days[i]);
        r.push(RegimeAssignment { day: days[i], taxonomy: "era", regime_id: id, regime_name: name });
        i += 1;
    }
    r
}

/// The exploration window `[start, end]` as day numbers, parsed from the
/// frozen date texts.
pub fn exploration_window() -> (r: Option<(i32, i32)>)
    ensures
        match (chrono_parse_ymd(EXPLORATION_START@), chrono_parse_ymd(EXPLORATION_END@)) {
            (Some(s), Some(e)) => r == Some((s, e)),
            _ => r is None,
        },
{
    match (parse_ymd(EXPLORATION_START), parse_ymd(EXPLORATION_END)) {
        (Some(s), Some(e)) => Some((s, e)),
        _ => None,
    }
}

/// Whether a day lies in the exploration window (bounds included).
pub fn in_exploration(window: (i32, i32), day: i32) -> (r: bool)
    ensures
        r == (window.0 <= day && day <= window.1),
{
    day >= window.0 && day <= window.1
}

/// Index of the day the SPY trend return of day `i` is measured from: 63
/// trading days earlier; `None` within the first 63 days.
pub fn spy_trend_base(i: usize) -> (r: Option<usize>)
    ensures
        i < 63 ==> r is None,
        i >= 63 ==> r == Some((i - 63) as usize),
{
    if i < SPY_TREND_LOOKBACK { None } else { Some(i - SPY_TREND_LOOKBACK) }
}


/// Eras follow the calendar: a later day is never in an earlier era.
pub proof fn law_eras_are_chronological(d1: i32, d2: i32)
    requires
        d1 <= d2,
    ensures
        era_spec(d1).0 <= era_spec(d2).0,
        1 <= era_spec(d1).0 <= 4,
{
}

} // verus!
