//! Thresholds of the v1 behavioral-tag rules, exported so downstream
//! queries see exactly which constants the rules used. The integer ones are
//! compared inside `classify`. The fractional ones are given exactly in
//! millionths (`value * 1_000_000`); the raw measurements they bound are
//! `f64`s, so each is compared against `millionths / 1e6` before the rules
//! run, and reaches `classify` as a boolean.

use vstd::prelude::*;

verus! {

/// `is_mega_cap_tech` requires the ADDV rank to be at most this.
pub const MEGA_CAP_TECH_ADDV_RANK_MAX: i32 = 50;
/// `is_mega_cap_tech` requires the 60-day beta to QQQ above 0.9.
pub const MEGA_CAP_TECH_BETA_QQQ_MIN_MILLIONTHS: i64 = 900_000;
/// `is_large_cap_tech` requires the ADDV rank to be at most this.
pub const LARGE_CAP_TECH_ADDV_RANK_MAX: i32 = 500;
/// `is_low_float_candidate` with float data: float below 50,000,000 shares.
pub const LOW_FLOAT_SHARES_MAX_MILLIONTHS: i64 = 50_000_000_000_000;
/// `is_low_float_candidate` fallback proxy: ATR(14) over prior close above 0.05.
pub const LOW_FLOAT_PROXY_ATR_RATIO_MIN_MILLIONTHS: i64 = 50_000;
/// `is_low_float_candidate` fallback proxy: prior close above 1.0.
pub const LOW_FLOAT_PROXY_PRIOR_CLOSE_MIN_MILLIONTHS: i64 = 1_000_000;
/// `is_low_float_candidate` fallback proxy: ADDV rank above this (a high
/// numeric rank is low liquidity; rank 1 is the top dollar volume).
pub const LOW_FLOAT_PROXY_ADDV_RANK_MIN: i32 = 5_000;
/// `is_meme_candidate`: realized-vol percentile at least 95.
pub const MEME_VOL_PERCENTILE_MIN_MILLIONTHS: i64 = 95_000_000;
/// `is_meme_candidate` first arm: intraday dollar-volume rank at most this.
pub const MEME_DOLLAR_VOLUME_RANK_MAX: i32 = 50;
/// `is_meme_candidate` second arm: percentile jump at least 90.
pub const MEME_ADDV_PERCENTILE_JUMP_MIN_MILLIONTHS: i64 = 90_000_000;
/// `is_recent_ipo`: days since IPO or first bar below this.
pub const RECENT_IPO_DAYS_MAX: i32 = 60;

} // verus!
