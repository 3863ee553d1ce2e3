//! The v1 behavioral-tag rules: a pure map from one (day, security)'s
//! inputs to its `is_*` tags.
//!
//! A rule that depends on a missing input is not asserted: it evaluates to
//! `false`. The rules are heuristic proxies; bumping any of them means
//! bumping the security-classification version.
//!
//! Comparisons of fractional measurements against their fractional
//! thresholds (beta, volatility percentiles, ATR ratio, prior close, float)
//! arrive here already evaluated, as `Option<bool>` facts that are `None`
//! exactly when the measurement is missing.

use vstd::prelude::*;
use crate::text::str_eq;
use crate::thresholds::{
    LARGE_CAP_TECH_ADDV_RANK_MAX, LOW_FLOAT_PROXY_ADDV_RANK_MIN, MEGA_CAP_TECH_ADDV_RANK_MAX,
    MEME_DOLLAR_VOLUME_RANK_MAX, RECENT_IPO_DAYS_MAX,
};
use crate::versions::SECURITY_CLASSIFICATION_VERSION;

verus! {

/// Market-cap bucket, as the `market_cap_bucket` column holds it.
#[derive(Debug, Clone, Copy, PartialEq, Eq, Structural)]
pub enum MarketCapBucket {
    Micro,
    Small,
    Mid,
    Large,
    Mega,
}

pub open spec fn market_cap_label(b: MarketCapBucket) -> Seq<char> {
    match b {
        MarketCapBucket::Micro => "micro"@,
        MarketCapBucket::Small => "small"@,
        MarketCapBucket::Mid => "mid"@,
        MarketCapBucket::Large => "large"@,
        MarketCapBucket::Mega => "mega"@,
    }
}

impl MarketCapBucket {
    pub fn as_str(&self) -> (r: &'static str)
        ensures
            r@ == market_cap_label(*self),
    {
        match self {
            Self::Micro => "micro",
            Self::Small => "small",
            Self::Mid => "mid",
            Self::Large => "large",
            Self::Mega => "mega",
        }
    }
}

/// One (day, security)'s rule inputs. Ranks and day counts are integers;
/// each fractional measurement is given as its comparison against the
/// rule's threshold (`None` when the measurement is missing).
#[derive(Debug, Clone, Default)]
pub struct ClassificationInputs<'a> {
    pub ticker_type: Option<&'a str>,
    pub is_adr: Option<bool>,
    pub country_of_origin: Option<&'a str>,
    pub market_cap_bucket: Option<MarketCapBucket>,
    pub sector: Option<&'a str>,
    pub industry: Option<&'a str>,
    pub sub_industry: Option<&'a str>,
    pub addv_20d_rank_today: Option<i32>,
    /// 21-day realized-vol percentile (0..=100) at or above
    /// `MEME_VOL_PERCENTILE_MIN_MILLIONTHS`.
    pub realized_vol_percentile_at_meme_min: Option<bool>,
    /// Its jump versus the prior 30 days at or above
    /// `MEME_ADDV_PERCENTILE_JUMP_MIN_MILLIONTHS`.
    pub realized_vol_percentile_jump_at_meme_min: Option<bool>,
    pub intraday_dollar_volume_0930_to_1000_rank_today: Option<i32>,
    /// ATR(14) over prior close above `LOW_FLOAT_PROXY_ATR_RATIO_MIN_MILLIONTHS`.
    pub atr_ratio_above_low_float_min: Option<bool>,
    /// Prior close above `LOW_FLOAT_PROXY_PRIOR_CLOSE_MIN_MILLIONTHS`.
    pub prior_close_above_low_float_min: Option<bool>,
    /// Beta to QQQ over 60 days above `MEGA_CAP_TECH_BETA_QQQ_MIN_MILLIONTHS`.
    pub beta_qqq_above_mega_min: Option<bool>,
    /// Float shares below `LOW_FLOAT_SHARES_MAX_MILLIONTHS`.
    pub float_below_low_float_max: Option<bool>,
    pub days_since_ipo_or_first_bar: Option<i32>,
}

/// The `is_*` tags of `security_classification_daily`.
#[derive(Debug, Clone, Copy, Default, PartialEq, Eq, Structural)]
pub struct BehavioralTags {
    pub is_mega_cap_tech: bool,
    pub is_large_cap_tech: bool,
    pub is_semiconductor: bool,
    pub is_biotech: bool,
    pub is_regional_bank: bool,
    pub is_energy: bool,
    pub is_china_adr: bool,
    pub is_low_float_candidate: bool,
    pub is_meme_candidate: bool,
    pub is_recent_ipo: bool,
}

/// `haystack` is present and equals one of `needles`.
pub open spec fn contains_text(haystack: Option<&str>, needles: Seq<Seq<char>>) -> bool {
    match haystack {
        Some(h) => needles.contains(h@),
        None => false,
    }
}

/// The texts of string slices.
pub open spec fn views_of(s: Seq<&str>) -> Seq<Seq<char>> {
    s.map_values(|x: &str| x@)
}

pub fn contains_str(haystack: Option<&str>, needles: &[&str]) -> (r: bool)
    ensures
        r == contains_text(haystack, views_of(needles@)),
{
    match haystack {
        Some(h) => {
            let ghost ns = views_of(needles@);
            let mut i: usize = 0;
            while i < needles.len()
                invariant
                    i <= needles@.len(),
                    ns == views_of(needles@),
                    haystack == Some(h),
                    forall|k: int| 0 <= k < i ==> ns[k] != h@,
                decreases needles@.len() - i,
            {
                if str_eq(needles[i], h) {
                    assert(ns[i as int] == h@);
                    assert(ns.contains(h@));
                    return true;
                }
                i += 1;
            }
            false
        },
        None => false,
    }
}

pub open spec fn tech_sectors_mega() -> Seq<Seq<char>> {
    seq!["Technology"@, "Communication Services"@, "Consumer Discretionary"@]
}

pub open spec fn tech_sectors_large() -> Seq<Seq<char>> {
    seq!["Technology"@, "Communication Services"@]
}

pub open spec fn semiconductor_names() -> Seq<Seq<char>> {
    seq!["Semiconductors"@]
}

pub open spec fn biotech_names() -> Seq<Seq<char>> {
    seq!["Biotechnology"@, "Pharmaceuticals"@]
}

pub open spec fn regional_bank_names() -> Seq<Seq<char>> {
    seq!["Regional Banks"@]
}

pub open spec fn china_hk_locales() -> Seq<Seq<char>> {
    seq!["CN"@, "HK"@]
}

/// The v1 rules.
pub open spec fn tags_of(i: ClassificationInputs) -> BehavioralTags {
    BehavioralTags {
        is_mega_cap_tech: match (i.market_cap_bucket, i.addv_20d_rank_today, i.beta_qqq_above_mega_min) {
            (Some(MarketCapBucket::Mega), Some(rank), Some(beta_ok)) =>
                contains_text(i.sector, tech_sectors_mega()) && rank <= MEGA_CAP_TECH_ADDV_RANK_MAX && beta_ok,
            _ => false,
        },
        is_large_cap_tech: match (i.market_cap_bucket, i.addv_20d_rank_today) {
            (Some(cap), Some(rank)) => (cap == MarketCapBucket::Large || cap == MarketCapBucket::Mega)
                && contains_text(i.sector, tech_sectors_large())
                && rank <= LARGE_CAP_TECH_ADDV_RANK_MAX,
            _ => false,
        },
        is_semiconductor: contains_text(i.industry, semiconductor_names())
            || contains_text(i.sub_industry, semiconductor_names()),
        is_biotech: contains_text(i.industry, biotech_names())
            || contains_text(i.sub_industry, biotech_names()),
        is_regional_bank: contains_text(i.industry, regional_bank_names())
            || contains_text(i.sub_industry, regional_bank_names()),
        is_energy: match i.sector {
            Some(s) => s@ == "Energy"@,
            None => false,
        },
        is_china_adr: i.is_adr == Some(true) && contains_text(i.country_of_origin, china_hk_locales()),
        is_low_float_candidate: match i.float_below_low_float_max {
            Some(below) => below,
            None => match (i.addv_20d_rank_today, i.atr_ratio_above_low_float_min, i.prior_close_above_low_float_min) {
                (Some(rank), Some(atr_ok), Some(price_ok)) => rank > LOW_FLOAT_PROXY_ADDV_RANK_MIN && atr_ok && price_ok,
                _ => false,
            },
        },
        is_meme_candidate: i.realized_vol_percentile_at_meme_min == Some(true) && (
            match i.intraday_dollar_volume_0930_to_1000_rank_today {
                Some(r) => r <= MEME_DOLLAR_VOLUME_RANK_MAX,
                None => false,
            } || i.realized_vol_percentile_jump_at_meme_min == Some(true)),
        is_recent_ipo: match i.days_since_ipo_or_first_bar {
            Some(d) => d < RECENT_IPO_DAYS_MAX,
            None => false,
        },
    }
}

/// Maps the inputs to the tags by the v1 rules.
pub fn classify(inputs: &ClassificationInputs) -> (t: BehavioralTags)
    ensures
        t == tags_of(*inputs),
{
    let tech_mega = ["Technology", "Communication Services", "Consumer Discretionary"];
    let tech_large = ["Technology", "Communication Services"];
    let semis = ["Semiconductors"];
    let biotech = ["Biotechnology", "Pharmaceuticals"];
    let regional = ["Regional Banks"];
    let china = ["CN", "HK"];
    proof {
        assert(views_of(tech_mega@) =~= tech_sectors_mega());
        assert(views_of(tech_large@) =~= tech_sectors_large());
        assert(views_of(semis@) =~= semiconductor_names());
        assert(views_of(biotech@) =~= biotech_names());
        assert(views_of(regional@) =~= regional_bank_names());
        assert(views_of(china@) =~= china_hk_locales());
    }

    let is_mega_cap_tech = match (inputs.market_cap_bucket, inputs.addv_20d_rank_today, inputs.beta_qqq_above_mega_min) {
        (Some(MarketCapBucket::Mega), Some(rank), Some(beta_ok)) => {
            contains_str(inputs.sector, &tech_mega) && rank <= MEGA_CAP_TECH_ADDV_RANK_MAX && beta_ok
        },
        _ => false,
    };
    let is_large_cap_tech = match (inputs.market_cap_bucket, inputs.addv_20d_rank_today) {
        (Some(cap), Some(rank)) => {
            let cap_ok = match cap {
                MarketCapBucket::Large | MarketCapBucket::Mega => true,
                _ => false,
            };
            cap_ok && contains_str(inputs.sector, &tech_large) && rank <= LARGE_CAP_TECH_ADDV_RANK_MAX
        },
        _ => false,
    };
    let is_semiconductor = contains_str(inputs.industry, &semis) || contains_str(inputs.sub_industry, &semis);
    let is_biotech = contains_str(inputs.industry, &biotech) || contains_str(inputs.sub_industry, &biotech);
    let is_regional_bank = contains_str(inputs.industry, &regional) || contains_str(inputs.sub_industry, &regional);
    let is_energy = match inputs.sector {
        Some(s) => str_eq(s, "Energy"),
        None => false,
    };
    let is_china_adr = match inputs.is_adr {
        Some(true) => contains_str(inputs.country_of_origin, &china),
        _ => false,
    };
    let is_low_float_candidate = match inputs.float_below_low_float_max {
        Some(below) => below,
        None => match (inputs.addv_20d_rank_today, inputs.atr_ratio_above_low_float_min, inputs.prior_close_above_low_float_min) {
            (Some(rank), Some(atr_ok), Some(price_ok)) => rank > LOW_FLOAT_PROXY_ADDV_RANK_MIN && atr_ok && price_ok,
            _ => false,
        },
    };
    let is_meme_candidate = match inputs.realized_vol_percentile_at_meme_min {
        Some(true) => {
            let arm_a = match inputs.intraday_dollar_volume_0930_to_1000_rank_today {
                Some(r) => r <= MEME_DOLLAR_VOLUME_RANK_MAX,
                None => false,
            };
            let arm_b = match inputs.realized_vol_percentile_jump_at_meme_min {
                Some(b) => b,
                None => false,
            };
            arm_a || arm_b
        },
        _ => false,
    };
    let is_recent_ipo = match inputs.days_since_ipo_or_first_bar {
        Some(d) => d < RECENT_IPO_DAYS_MAX,
        None => false,
    };
    BehavioralTags {
        is_mega_cap_tech,
        is_large_cap_tech,
        is_semiconductor,
        is_biotech,
        is_regional_bank,
        is_energy,
        is_china_adr,
        is_low_float_candidate,
        is_meme_candidate,
        is_recent_ipo,
    }
}

/// The version stamp of these rules.
pub fn rules_version() -> (r: &'static str)
    ensures
        r@ == SECURITY_CLASSIFICATION_VERSION@,
{
    SECURITY_CLASSIFICATION_VERSION
}


/// Inputs with every field missing.
pub open spec fn no_inputs<'a>() -> ClassificationInputs<'a> {
    ClassificationInputs {
        ticker_type: None,
        is_adr: None,
        country_of_origin: None,
        market_cap_bucket: None,
        sector: None,
        industry: None,
        sub_industry: None,
        addv_20d_rank_today: None,
        realized_vol_percentile_at_meme_min: None,
        realized_vol_percentile_jump_at_meme_min: None,
        intraday_dollar_volume_0930_to_1000_rank_today: None,
        atr_ratio_above_low_float_min: None,
        prior_close_above_low_float_min: None,
        beta_qqq_above_mega_min: None,
        float_below_low_float_max: None,
        days_since_ipo_or_first_bar: None,
    }
}

/// No tag set.
pub open spec fn no_tags() -> BehavioralTags {
    BehavioralTags {
        is_mega_cap_tech: false,
        is_large_cap_tech: false,
        is_semiconductor: false,
        is_biotech: false,
        is_regional_bank: false,
        is_energy: false,
        is_china_adr: false,
        is_low_float_candidate: false,
        is_meme_candidate: false,
        is_recent_ipo: false,
    }
}

/// Missing inputs assert nothing: without a market-cap bucket or ADDV rank
/// neither cap-tech tag holds, without a realized-vol percentile the meme
/// tag does not, without an IPO age the recent-IPO tag does not, and with
/// no inputs at all no tag holds.
pub proof fn law_missing_inputs_assert_nothing(i: ClassificationInputs)
    ensures
        (i.market_cap_bucket is None || i.addv_20d_rank_today is None) ==>
            !tags_of(i).is_mega_cap_tech && !tags_of(i).is_large_cap_tech,
        i.realized_vol_percentile_at_meme_min is None ==> !tags_of(i).is_meme_candidate,
        i.days_since_ipo_or_first_bar is None ==> !tags_of(i).is_recent_ipo,
        i == no_inputs() ==> tags_of(i) == no_tags(),
{
}

/// The field is present and reads `t`.
pub open spec fn reads(o: Option<&str>, t: Seq<char>) -> bool {
    o matches Some(x) && x@ == t
}

/// The v1 tags, each in terms of the inputs it reads:
/// - semiconductor, biotech and regional bank: the industry or the
///   sub-industry is `Semiconductors`; `Biotechnology` or
///   `Pharmaceuticals`; `Regional Banks`;
/// - energy: the sector is `Energy`;
/// - China ADR: an ADR whose country of origin is `CN` or `HK`;
/// - mega-cap tech: a mega cap in Technology, Communication Services or
///   Consumer Discretionary with ADDV rank at most 50 and its QQQ beta
///   above the minimum;
/// - large-cap tech: a large or mega cap in Technology or Communication
///   Services with ADDV rank at most 500;
/// - low float: the float fact when known, else ADDV rank above 5000 with
///   both the ATR-ratio and the price facts true;
/// - meme: the realized-vol percentile fact true, and either the intraday
///   dollar-volume rank at most 50 or the percentile-jump fact true;
/// - recent IPO: fewer than 60 days since listing or the first bar.
pub proof fn law_v1_tags(i: ClassificationInputs)
    ensures
        tags_of(i).is_semiconductor == (reads(i.industry, "Semiconductors"@) || reads(i.sub_industry, "Semiconductors"@)),
        tags_of(i).is_biotech == (reads(i.industry, "Biotechnology"@) || reads(i.industry, "Pharmaceuticals"@)
            || reads(i.sub_industry, "Biotechnology"@) || reads(i.sub_industry, "Pharmaceuticals"@)),
        tags_of(i).is_regional_bank == (reads(i.industry, "Regional Banks"@) || reads(i.sub_industry, "Regional Banks"@)),
        tags_of(i).is_energy == reads(i.sector, "Energy"@),
        tags_of(i).is_china_adr == (i.is_adr == Some(true) && (reads(i.country_of_origin, "CN"@) || reads(i.country_of_origin, "HK"@))),
        tags_of(i).is_mega_cap_tech == (
            i.market_cap_bucket == Some(MarketCapBucket::Mega)
            && (reads(i.sector, "Technology"@) || reads(i.sector, "Communication Services"@) || reads(i.sector, "Consumer Discretionary"@))
            && (i.addv_20d_rank_today matches Some(r) && r <= 50)
            && i.beta_qqq_above_mega_min == Some(true)),
        tags_of(i).is_large_cap_tech == (
            (i.market_cap_bucket == Some(MarketCapBucket::Large) || i.market_cap_bucket == Some(MarketCapBucket::Mega))
            && (reads(i.sector, "Technology"@) || reads(i.sector, "Communication Services"@))
            && (i.addv_20d_rank_today matches Some(r) && r <= 500)),
        i.float_below_low_float_max matches Some(b) ==> tags_of(i).is_low_float_candidate == b,
        i.float_below_low_float_max is None ==> tags_of(i).is_low_float_candidate == (
            (i.addv_20d_rank_today matches Some(r) && r > 5000)
            && i.atr_ratio_above_low_float_min == Some(true)
            && i.prior_close_above_low_float_min == Some(true)),
        tags_of(i).is_meme_candidate == (i.realized_vol_percentile_at_meme_min == Some(true)
            && ((i.intraday_dollar_volume_0930_to_1000_rank_today matches Some(r) && r <= 50)
                || i.realized_vol_percentile_jump_at_meme_min == Some(true))),
        tags_of(i).is_recent_ipo == (i.days_since_ipo_or_first_bar matches Some(d) && d < 60),
{
    assert(semiconductor_names()[0] == "Semiconductors"@);
    assert(biotech_names()[0] == "Biotechnology"@ && biotech_names()[1] == "Pharmaceuticals"@);
    assert(regional_bank_names()[0] == "Regional Banks"@);
    assert(china_hk_locales()[0] == "CN"@ && china_hk_locales()[1] == "HK"@);
    assert(tech_sectors_mega()[0] == "Technology"@ && tech_sectors_mega()[1] == "Communication Services"@
        && tech_sectors_mega()[2] == "Consumer Discretionary"@);
    assert(tech_sectors_large()[0] == "Technology"@ && tech_sectors_large()[1] == "Communication Services"@);
    assert forall|h: Seq<char>| semiconductor_names().contains(h) <==> h == "Semiconductors"@ by {
        if h == "Semiconductors"@ { assert(semiconductor_names()[0] == h); }
    }
    assert forall|h: Seq<char>| biotech_names().contains(h) <==> (h == "Biotechnology"@ || h == "Pharmaceuticals"@) by {
        if h == "Biotechnology"@ { assert(biotech_names()[0] == h); }
        if h == "Pharmaceuticals"@ { assert(biotech_names()[1] == h); }
    }
    assert forall|h: Seq<char>| regional_bank_names().contains(h) <==> h == "Regional Banks"@ by {
        if h == "Regional Banks"@ { assert(regional_bank_names()[0] == h); }
    }
    assert forall|h: Seq<char>| china_hk_locales().contains(h) <==> (h == "CN"@ || h == "HK"@) by {
        if h == "CN"@ { assert(china_hk_locales()[0] == h); }
        if h == "HK"@ { assert(china_hk_locales()[1] == h); }
    }
    assert forall|h: Seq<char>| tech_sectors_mega().contains(h)
        <==> (h == "Technology"@ || h == "Communication Services"@ || h == "Consumer Discretionary"@) by {
        if h == "Technology"@ { assert(tech_sectors_mega()[0] == h); }
        if h == "Communication Services"@ { assert(tech_sectors_mega()[1] == h); }
        if h == "Consumer Discretionary"@ { assert(tech_sectors_mega()[2] == h); }
    }
    assert forall|h: Seq<char>| tech_sectors_large().contains(h) <==> (h == "Technology"@ || h == "Communication Services"@) by {
        if h == "Technology"@ { assert(tech_sectors_large()[0] == h); }
        if h == "Communication Services"@ { assert(tech_sectors_large()[1] == h); }
    }
}

} // verus!
