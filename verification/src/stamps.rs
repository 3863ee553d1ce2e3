//! Per-table lists of the file-level metadata stamps every output file
//! carries: the table's version keys and values.

use vstd::prelude::*;
use crate::versions::{
    ATR_THRESHOLD_VERSION, ATR_THRESHOLD_VERSION_KEY, DAILY_OBSERVATION_VERSION,
    DAILY_OBSERVATION_VERSION_KEY, ENTRY_OFFSET_GRID_VERSION, ENTRY_OFFSET_GRID_VERSION_KEY,
    FORWARD_HORIZONS_VERSION, FORWARD_HORIZONS_VERSION_KEY, FORWARD_OUTCOMES_VERSION,
    FORWARD_OUTCOMES_VERSION_KEY, FORWARD_PATH_CHECKPOINTS_VERSION,
    FORWARD_PATH_CHECKPOINTS_VERSION_KEY, MARKET_CONTEXT_DAILY_VERSION,
    MARKET_CONTEXT_DAILY_VERSION_KEY, PCT_THRESHOLD_VERSION, PCT_THRESHOLD_VERSION_KEY,
    REGIME_TAXONOMY_VERSION, REGIME_TAXONOMY_VERSION_KEY, SECURITY_CLASSIFICATION_VERSION,
    SECURITY_CLASSIFICATION_VERSION_KEY, SIGNAL_DEFINITION_KEY, SIGNAL_DEFINITION_V1,
    SIGNAL_DEFINITION_VERSION, SIGNAL_DEFINITION_VERSION_KEY,
};

verus! {

/// A stamp list as text pairs.
pub open spec fn stamp_view(v: Seq<(String, String)>) -> Seq<(Seq<char>, Seq<char>)> {
    v.map_values(|p: (String, String)| (p.0@, p.1@))
}

/// Owned copies of `(key, value)` pairs, in order.
pub fn own(pairs: &[(&str, &str)]) -> (r: Vec<(String, String)>)
    ensures
        stamp_view(r@) == pairs@.map_values(|p: (&str, &str)| (p.0@, p.1@)),
{
    let mut r: Vec<(String, String)> = Vec::new();
    let mut i: usize = 0;
    while i < pairs.len()
        invariant
            i <= pairs@.len(),
            stamp_view(r@) == pairs@.take(i as int).map_values(|p: (&str, &str)| (p.0@, p.1@)),
        decreases pairs@.len() - i,
    {
        let (k, v) = pairs[i];
        let ghost prev = r@;
        r.push((k.to_owned(), v.to_owned()));
        assert(pairs@.take(i as int + 1) =~= pairs@.take(i as int).push(pairs@[i as int]));
        assert(stamp_view(r@) =~= stamp_view(prev).push((k@, v@)));
        assert(stamp_view(r@) =~= pairs@.take(i as int + 1).map_values(|p: (&str, &str)| (p.0@, p.1@)));
        i += 1;
    }
    assert(pairs@.take(pairs@.len() as int) =~= pairs@);
    r
}

pub fn daily_observation_stamps() -> (r: Vec<(String, String)>)
    ensures
        stamp_view(r@) == seq![
            (DAILY_OBSERVATION_VERSION_KEY@, DAILY_OBSERVATION_VERSION@),
            (SIGNAL_DEFINITION_KEY@, SIGNAL_DEFINITION_V1@),
            (SIGNAL_DEFINITION_VERSION_KEY@, SIGNAL_DEFINITION_VERSION@),
        ],
{
    let r = own(&[
        (DAILY_OBSERVATION_VERSION_KEY, DAILY_OBSERVATION_VERSION),
        (SIGNAL_DEFINITION_KEY, SIGNAL_DEFINITION_V1),
        (SIGNAL_DEFINITION_VERSION_KEY, SIGNAL_DEFINITION_VERSION),
    ]);
    assert(stamp_view(r@) =~= seq![
        (DAILY_OBSERVATION_VERSION_KEY@, DAILY_OBSERVATION_VERSION@),
        (SIGNAL_DEFINITION_KEY@, SIGNAL_DEFINITION_V1@),
        (SIGNAL_DEFINITION_VERSION_KEY@, SIGNAL_DEFINITION_VERSION@),
    ]);
    r
}

pub fn market_context_daily_stamps() -> (r: Vec<(String, String)>)
    ensures
        stamp_view(r@) == seq![(MARKET_CONTEXT_DAILY_VERSION_KEY@, MARKET_CONTEXT_DAILY_VERSION@)],
{
    let r = own(&[(MARKET_CONTEXT_DAILY_VERSION_KEY, MARKET_CONTEXT_DAILY_VERSION)]);
    assert(stamp_view(r@) =~= seq![(MARKET_CONTEXT_DAILY_VERSION_KEY@, MARKET_CONTEXT_DAILY_VERSION@)]);
    r
}

pub fn forward_outcomes_stamps() -> (r: Vec<(String, String)>)
    ensures
        stamp_view(r@) == seq![
            (FORWARD_OUTCOMES_VERSION_KEY@, FORWARD_OUTCOMES_VERSION@),
            (ENTRY_OFFSET_GRID_VERSION_KEY@, ENTRY_OFFSET_GRID_VERSION@),
            (FORWARD_HORIZONS_VERSION_KEY@, FORWARD_HORIZONS_VERSION@),
            (PCT_THRESHOLD_VERSION_KEY@, PCT_THRESHOLD_VERSION@),
            (ATR_THRESHOLD_VERSION_KEY@, ATR_THRESHOLD_VERSION@),
        ],
{
    let r = own(&[
        (FORWARD_OUTCOMES_VERSION_KEY, FORWARD_OUTCOMES_VERSION),
        (ENTRY_OFFSET_GRID_VERSION_KEY, ENTRY_OFFSET_GRID_VERSION),
        (FORWARD_HORIZONS_VERSION_KEY, FORWARD_HORIZONS_VERSION),
        (PCT_THRESHOLD_VERSION_KEY, PCT_THRESHOLD_VERSION),
        (ATR_THRESHOLD_VERSION_KEY, ATR_THRESHOLD_VERSION),
    ]);
    assert(stamp_view(r@) =~= seq![
        (FORWARD_OUTCOMES_VERSION_KEY@, FORWARD_OUTCOMES_VERSION@),
        (ENTRY_OFFSET_GRID_VERSION_KEY@, ENTRY_OFFSET_GRID_VERSION@),
        (FORWARD_HORIZONS_VERSION_KEY@, FORWARD_HORIZONS_VERSION@),
        (PCT_THRESHOLD_VERSION_KEY@, PCT_THRESHOLD_VERSION@),
        (ATR_THRESHOLD_VERSION_KEY@, ATR_THRESHOLD_VERSION@),
    ]);
    r
}

pub fn forward_path_short_stamps() -> (r: Vec<(String, String)>)
    ensures
        stamp_view(r@) == seq![
            (FORWARD_PATH_CHECKPOINTS_VERSION_KEY@, FORWARD_PATH_CHECKPOINTS_VERSION@),
            (ENTRY_OFFSET_GRID_VERSION_KEY@, ENTRY_OFFSET_GRID_VERSION@),
        ],
{
    let r = own(&[
        (FORWARD_PATH_CHECKPOINTS_VERSION_KEY, FORWARD_PATH_CHECKPOINTS_VERSION),
        (ENTRY_OFFSET_GRID_VERSION_KEY, ENTRY_OFFSET_GRID_VERSION),
    ]);
    assert(stamp_view(r@) =~= seq![
        (FORWARD_PATH_CHECKPOINTS_VERSION_KEY@, FORWARD_PATH_CHECKPOINTS_VERSION@),
        (ENTRY_OFFSET_GRID_VERSION_KEY@, ENTRY_OFFSET_GRID_VERSION@),
    ]);
    r
}

pub fn security_classification_daily_stamps() -> (r: Vec<(String, String)>)
    ensures
        stamp_view(r@) == seq![(SECURITY_CLASSIFICATION_VERSION_KEY@, SECURITY_CLASSIFICATION_VERSION@)],
{
    let r = own(&[(SECURITY_CLASSIFICATION_VERSION_KEY, SECURITY_CLASSIFICATION_VERSION)]);
    assert(stamp_view(r@) =~= seq![(SECURITY_CLASSIFICATION_VERSION_KEY@, SECURITY_CLASSIFICATION_VERSION@)]);
    r
}

/// The regime writer appends the per-taxonomy threshold stamps (computed
/// values) at write time.
pub fn regime_definitions_stamps() -> (r: Vec<(String, String)>)
    ensures
        stamp_view(r@) == seq![(REGIME_TAXONOMY_VERSION_KEY@, REGIME_TAXONOMY_VERSION@)],
{
    let r = own(&[(REGIME_TAXONOMY_VERSION_KEY, REGIME_TAXONOMY_VERSION)]);
    assert(stamp_view(r@) =~= seq![(REGIME_TAXONOMY_VERSION_KEY@, REGIME_TAXONOMY_VERSION@)]);
    r
}

} // verus!
