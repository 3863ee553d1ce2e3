//! Versioned-metadata keys and version values that every output file is
//! stamped with, and the parameter grids that shape the output columns.
//!
//! Readers refuse joins across mismatched versions; bumping a grid means
//! bumping its version constant.

use vstd::prelude::*;
use crate::text::chars_of;

verus! {

pub const ENTRY_OFFSET_GRID_VERSION_KEY: &'static str = "entry_offset_grid_version";
pub const ENTRY_OFFSET_GRID_VERSION: &'static str = "v1";

pub const FORWARD_HORIZONS_VERSION_KEY: &'static str = "forward_horizons_version";
pub const FORWARD_HORIZONS_VERSION: &'static str = "v2";

/// The checkpoint set stays the full 23; only the schema version moved.
pub const FORWARD_PATH_CHECKPOINTS_VERSION_KEY: &'static str = "forward_path_checkpoints_version";
pub const FORWARD_PATH_CHECKPOINTS_VERSION: &'static str = "v2";

pub const PCT_THRESHOLD_VERSION_KEY: &'static str = "pct_threshold_version";
pub const PCT_THRESHOLD_VERSION: &'static str = "v2";

pub const ATR_THRESHOLD_VERSION_KEY: &'static str = "atr_threshold_version";
pub const ATR_THRESHOLD_VERSION: &'static str = "v2";

pub const REGIME_TAXONOMY_VERSION_KEY: &'static str = "regime_taxonomy_version";
pub const REGIME_TAXONOMY_VERSION: &'static str = "v1";

pub const SECURITY_CLASSIFICATION_VERSION_KEY: &'static str = "security_classification_version";
pub const SECURITY_CLASSIFICATION_VERSION: &'static str = "v1";

pub const DAILY_OBSERVATION_VERSION_KEY: &'static str = "daily_observation_version";
pub const DAILY_OBSERVATION_VERSION: &'static str = "v2";

pub const FORWARD_OUTCOMES_VERSION_KEY: &'static str = "forward_outcomes_version";
pub const FORWARD_OUTCOMES_VERSION: &'static str = "v2";

pub const MARKET_CONTEXT_DAILY_VERSION_KEY: &'static str = "market_context_daily_version";
pub const MARKET_CONTEXT_DAILY_VERSION: &'static str = "v2";

/// The default-signal definition embedded in the `signal_*` columns, stamped
/// literally so the columns are interpretable on their own.
pub const SIGNAL_DEFINITION_KEY: &'static str = "signal_definition";
pub const SIGNAL_DEFINITION_V1: &'static str = "intraday_ret_0930_to_1000 > 0";
pub const SIGNAL_DEFINITION_VERSION_KEY: &'static str = "signal_definition_version";
pub const SIGNAL_DEFINITION_VERSION: &'static str = "v1";

/// Per-taxonomy regime bucket boundaries are stamped under
/// `regime_thresholds_<taxonomy>`, their computation window under
/// `regime_thresholds_window`.
pub const REGIME_THRESHOLDS_KEY_PREFIX: &'static str = "regime_thresholds_";
pub const REGIME_THRESHOLDS_WINDOW_KEY: &'static str = "regime_thresholds_window";

/// Marks which engine milestone wrote a file.
pub const ENGINE_MILESTONE_KEY: &'static str = "engine_milestone";

/// File-metadata key carrying one taxonomy's bucket boundaries, e.g.
/// `regime_thresholds_vix_level`.
pub fn regime_thresholds_key(taxonomy: &str) -> (r: String)
    ensures
        r@ == REGIME_THRESHOLDS_KEY_PREFIX@ + taxonomy@,
{
    let mut cs = chars_of(REGIME_THRESHOLDS_KEY_PREFIX);
    let mut t = chars_of(taxonomy);
    cs.append(&mut t);
    crate::text::string_of(&cs)
}

/// Entry-offset grid v1 as `HHMM` labels: dense early, sparse late.
pub fn entry_offsets_v1() -> (r: Vec<&'static str>)
    ensures
        r@.len() == 17,
        r@.map_values(|s: &'static str| s@) == seq![
            "0935"@, "0940"@, "0945"@, "0950"@, "0955"@,
            "1000"@, "1005"@, "1010"@, "1015"@, "1020"@,
            "1030"@, "1045"@, "1100"@, "1130"@, "1200"@, "1300"@, "1530"@,
        ],
{
    let r = vec![
        "0935", "0940", "0945", "0950", "0955",
        "1000", "1005", "1010", "1015", "1020",
        "1030", "1045", "1100", "1130", "1200", "1300", "1530",
    ];
    assert(r@.map_values(|s: &'static str| s@) =~= seq![
        "0935"@, "0940"@, "0945"@, "0950"@, "0955"@,
        "1000"@, "1005"@, "1010"@, "1015"@, "1020"@,
        "1030"@, "1045"@, "1100"@, "1130"@, "1200"@, "1300"@, "1530"@,
    ]);
    r
}

/// The forward-horizon labels v2.
pub open spec fn forward_horizon_labels() -> Seq<Seq<char>> {
    seq![
        "10min"@, "30min"@, "60min"@, "EOD"@,
            "1d"@, "2d"@, "3d"@, "5d"@, "10d"@, "21d"@, "42d"@, "63d"@, "252d"@,
    ]
}

/// Forward horizons v2: the labels used in `ret_<H>`-style column names.
pub fn forward_horizons_v2() -> (r: Vec<&'static str>)
    ensures
        r@.map_values(|s: &'static str| s@) == forward_horizon_labels(),
{
    let r = vec![
        "10min", "30min", "60min", "EOD",
        "1d", "2d", "3d", "5d", "10d", "21d", "42d", "63d", "252d",
    ];
    assert(r@.map_values(|s: &'static str| s@) =~= seq![
        "10min"@, "30min"@, "60min"@, "EOD"@,
        "1d"@, "2d"@, "3d"@, "5d"@, "10d"@, "21d"@, "42d"@, "63d"@, "252d"@,
    ]);
    r
}

/// Path checkpoints v1: the long-format companion grid of
/// `forward_outcomes`.
pub fn path_checkpoints_v1() -> (r: Vec<&'static str>)
    ensures
        r@.map_values(|s: &'static str| s@) == seq![
            "1m"@, "2m"@, "3m"@, "5m"@, "10m"@, "15m"@, "20m"@, "30m"@, "45m"@, "60m"@,
            "90m"@, "120m"@, "180m"@, "EOD"@,
            "1d_open"@, "1d_30m"@, "1d_close"@,
            "2d_open"@, "2d_close"@,
            "3d_open"@, "3d_close"@,
            "5d_open"@, "5d_close"@,
        ],
{
    let r = vec![
        "1m", "2m", "3m", "5m", "10m", "15m", "20m", "30m", "45m", "60m",
        "90m", "120m", "180m", "EOD",
        "1d_open", "1d_30m", "1d_close",
        "2d_open", "2d_close",
        "3d_open", "3d_close",
        "5d_open", "5d_close",
    ];
    assert(r@.map_values(|s: &'static str| s@) =~= seq![
        "1m"@, "2m"@, "3m"@, "5m"@, "10m"@, "15m"@, "20m"@, "30m"@, "45m"@, "60m"@,
        "90m"@, "120m"@, "180m"@, "EOD"@,
        "1d_open"@, "1d_30m"@, "1d_close"@,
        "2d_open"@, "2d_close"@,
        "3d_open"@, "3d_close"@,
        "5d_open"@, "5d_close"@,
    ]);
    r
}

/// The fixed-percentage threshold labels v2.
pub open spec fn pct_threshold_labels() -> Seq<Seq<char>> {
    seq!["0_5"@, "1"@, "2"@, "3"@, "5"@, "10"@, "20"@]
}

/// Fixed-percentage thresholds v2, as column-name suffixes.
pub fn pct_thresholds_v2() -> (r: Vec<&'static str>)
    ensures
        r@.map_values(|s: &'static str| s@) == pct_threshold_labels(),
{
    let r = vec!["0_5", "1", "2", "3", "5", "10", "20"];
    assert(r@.map_values(|s: &'static str| s@) =~= seq!["0_5"@, "1"@, "2"@, "3"@, "5"@, "10"@, "20"@]);
    r
}

/// The ATR-multiple threshold labels v2.
pub open spec fn atr_threshold_labels() -> Seq<Seq<char>> {
    seq!["0_25"@, "0_5"@, "1"@, "1_5"@, "2"@, "3"@]
}

/// ATR-multiple thresholds v2, as column-name suffixes.
pub fn atr_thresholds_v2() -> (r: Vec<&'static str>)
    ensures
        r@.map_values(|s: &'static str| s@) == atr_threshold_labels(),
{
    let r = vec!["0_25", "0_5", "1", "1_5", "2", "3"];
    assert(r@.map_values(|s: &'static str| s@) =~= seq!["0_25"@, "0_5"@, "1"@, "1_5"@, "2"@, "3"@]);
    r
}

/// The multi-day horizon labels v2.
pub open spec fn multiday_horizon_labels() -> Seq<Seq<char>> {
    seq!["1d"@, "2d"@, "3d"@, "5d"@, "10d"@, "21d"@, "42d"@, "63d"@, "252d"@]
}

/// The multi-day tail of the forward horizons (the horizons dividends can
/// affect).
pub fn multiday_horizons_v2() -> (r: Vec<&'static str>)
    ensures
        r@.map_values(|s: &'static str| s@) == multiday_horizon_labels(),
{
    let r = vec!["1d", "2d", "3d", "5d", "10d", "21d", "42d", "63d", "252d"];
    assert(r@.map_values(|s: &'static str| s@) =~= seq!["1d"@, "2d"@, "3d"@, "5d"@, "10d"@, "21d"@, "42d"@, "63d"@, "252d"@]);
    r
}

/// The target-before-stop pair labels v6.
pub open spec fn target_stop_pair_labels() -> Seq<Seq<char>> {
    seq![
        "0_5pct_before_minus_0_5pct_30min"@,
            "1pct_before_minus_1pct_EOD"@,
            "2pct_before_minus_1pct_EOD"@,
            "3pct_before_minus_1_5pct_EOD"@,
            "2pct_before_minus_2pct_1d"@,
            "3pct_before_minus_3pct_5d"@,
            "1atr_before_minus_0_5atr_EOD"@,
            "2atr_before_minus_1atr_5d"@,
            "3atr_before_minus_1_5atr_21d"@,
    ]
}

/// The frozen target-before-stop label pairs (both the `hit_<pair>` and the
/// `first_event_<pair>` column families).
pub fn target_stop_pairs_v6() -> (r: Vec<&'static str>)
    ensures
        r@.map_values(|s: &'static str| s@) == target_stop_pair_labels(),
{
    let r = vec![
        "0_5pct_before_minus_0_5pct_30min",
        "1pct_before_minus_1pct_EOD",
        "2pct_before_minus_1pct_EOD",
        "3pct_before_minus_1_5pct_EOD",
        "2pct_before_minus_2pct_1d",
        "3pct_before_minus_3pct_5d",
        "1atr_before_minus_0_5atr_EOD",
        "2atr_before_minus_1atr_5d",
        "3atr_before_minus_1_5atr_21d",
    ];
    assert(r@.map_values(|s: &'static str| s@) =~= seq![
        "0_5pct_before_minus_0_5pct_30min"@,
        "1pct_before_minus_1pct_EOD"@,
        "2pct_before_minus_1pct_EOD"@,
        "3pct_before_minus_1_5pct_EOD"@,
        "2pct_before_minus_2pct_1d"@,
        "3pct_before_minus_3pct_5d"@,
        "1atr_before_minus_0_5atr_EOD"@,
        "2atr_before_minus_1atr_5d"@,
        "3atr_before_minus_1_5atr_21d"@,
    ]);
    r
}

/// Values of `first_event_<pair>`.
pub fn first_event_values_v1() -> (r: Vec<&'static str>)
    ensures
        r@.map_values(|s: &'static str| s@) == seq!["target_first"@, "stop_first"@, "neither"@, "no_data"@],
{
    let r = vec!["target_first", "stop_first", "neither", "no_data"];
    assert(r@.map_values(|s: &'static str| s@) =~= seq!["target_first"@, "stop_first"@, "neither"@, "no_data"@]);
    r
}

/// Values of `terminal_event_type`.
pub fn terminal_event_types_v1() -> (r: Vec<&'static str>)
    ensures
        r@.map_values(|s: &'static str| s@) == seq![
            "none"@,
            "delisted_merger_acquisition"@,
            "delisted_bankruptcy_liquidation"@,
            "delisted_exchange_compliance"@,
            "delisted_unknown"@,
            "extended_halt_no_bars"@,
        ],
{
    let r = vec![
        "none",
        "delisted_merger_acquisition",
        "delisted_bankruptcy_liquidation",
        "delisted_exchange_compliance",
        "delisted_unknown",
        "extended_halt_no_bars",
    ];
    assert(r@.map_values(|s: &'static str| s@) =~= seq![
        "none"@,
        "delisted_merger_acquisition"@,
        "delisted_bankruptcy_liquidation"@,
        "delisted_exchange_compliance"@,
        "delisted_unknown"@,
        "extended_halt_no_bars"@,
    ]);
    r
}

} // verus!
