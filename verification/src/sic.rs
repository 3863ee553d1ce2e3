//! SIC code to (sector, industry) mapping, v1.
//!
//! A heuristic range mapping from 4-digit SIC codes to GICS-style sector
//! names. The label set is pinned by the classification rules: the
//! `Technology`, `Communication Services`, `Consumer Discretionary` and
//! `Energy` sectors and the `Semiconductors`, `Biotechnology`,
//! `Pharmaceuticals` and `Regional Banks` industries must match them
//! exactly. Changing a range is a classification-version event.
//!
//! Ranges are tried in order; the first that holds the code wins (so
//! `2836` is Biotechnology, not Chemicals). `6022`, state commercial banks,
//! is the closest SIC gets to a regional bank; `6770` blank checks land in
//! Investment Offices; `8731`, commercial research, is where most
//! pre-revenue biotechs live.

use vstd::prelude::*;
use crate::parse::{parse_unsigned, parse_unsigned_chars, trim_chars, trimmed};
use crate::text::chars_of;

verus! {

/// The (sector, industry) of a SIC code, by the first range holding it.
pub open spec fn sic_sector_industry(code: int) -> Option<(Seq<char>, Seq<char>)> {
    if 100 <= code <= 999 {
        Some(("Consumer Staples"@, "Agriculture"@))
    } else if 1000 <= code <= 1299 {
        Some(("Materials"@, "Metals & Mining"@))
    } else if 1300 <= code <= 1399 {
        Some(("Energy"@, "Oil & Gas"@))
    } else if 1400 <= code <= 1499 {
        Some(("Materials"@, "Mining & Quarrying"@))
    } else if 1500 <= code <= 1799 {
        Some(("Industrials"@, "Construction"@))
    } else if 2000 <= code <= 2199 {
        Some(("Consumer Staples"@, "Food, Beverage & Tobacco"@))
    } else if 2200 <= code <= 2399 {
        Some(("Consumer Discretionary"@, "Textiles & Apparel"@))
    } else if 2400 <= code <= 2499 {
        Some(("Materials"@, "Wood Products"@))
    } else if 2500 <= code <= 2599 {
        Some(("Consumer Discretionary"@, "Furniture"@))
    } else if 2600 <= code <= 2699 {
        Some(("Materials"@, "Paper"@))
    } else if 2700 <= code <= 2799 {
        Some(("Communication Services"@, "Publishing"@))
    } else if 2834 <= code <= 2835 {
        Some(("Healthcare"@, "Pharmaceuticals"@))
    } else if code == 2836 {
        Some(("Healthcare"@, "Biotechnology"@))
    } else if 2800 <= code <= 2899 {
        Some(("Materials"@, "Chemicals"@))
    } else if 2900 <= code <= 2999 {
        Some(("Energy"@, "Petroleum Refining"@))
    } else if 3000 <= code <= 3199 {
        Some(("Consumer Discretionary"@, "Rubber, Plastics & Leather"@))
    } else if 3200 <= code <= 3299 {
        Some(("Materials"@, "Stone, Clay & Glass"@))
    } else if 3300 <= code <= 3499 {
        Some(("Materials"@, "Metals"@))
    } else if 3570 <= code <= 3579 {
        Some(("Technology"@, "Computer Hardware"@))
    } else if 3500 <= code <= 3599 {
        Some(("Industrials"@, "Machinery"@))
    } else if code == 3674 {
        Some(("Technology"@, "Semiconductors"@))
    } else if 3600 <= code <= 3699 {
        Some(("Technology"@, "Electronics"@))
    } else if 3711 <= code <= 3716 {
        Some(("Consumer Discretionary"@, "Automobiles"@))
    } else if 3700 <= code <= 3799 {
        Some(("Industrials"@, "Transportation Equipment"@))
    } else if 3841 <= code <= 3851 {
        Some(("Healthcare"@, "Medical Devices"@))
    } else if 3800 <= code <= 3839 {
        Some(("Industrials"@, "Instruments"@))
    } else if 3860 <= code <= 3999 {
        Some(("Consumer Discretionary"@, "Misc Manufacturing"@))
    } else if 4000 <= code <= 4799 {
        Some(("Industrials"@, "Transportation"@))
    } else if 4800 <= code <= 4899 {
        Some(("Communication Services"@, "Telecommunications"@))
    } else if 4900 <= code <= 4999 {
        Some(("Utilities"@, "Utilities"@))
    } else if 5000 <= code <= 5199 {
        Some(("Consumer Discretionary"@, "Wholesale"@))
    } else if 5400 <= code <= 5499 {
        Some(("Consumer Staples"@, "Food Retail"@))
    } else if 5200 <= code <= 5999 {
        Some(("Consumer Discretionary"@, "Retail"@))
    } else if code == 6022 {
        Some(("Financials"@, "Regional Banks"@))
    } else if 6000 <= code <= 6099 {
        Some(("Financials"@, "Banks"@))
    } else if 6100 <= code <= 6199 {
        Some(("Financials"@, "Credit Services"@))
    } else if 6200 <= code <= 6299 {
        Some(("Financials"@, "Capital Markets"@))
    } else if 6300 <= code <= 6499 {
        Some(("Financials"@, "Insurance"@))
    } else if 6500 <= code <= 6599 {
        Some(("Real Estate"@, "Real Estate"@))
    } else if code == 6798 {
        Some(("Real Estate"@, "REITs"@))
    } else if 6600 <= code <= 6799 {
        Some(("Financials"@, "Investment Offices"@))
    } else if 7000 <= code <= 7299 {
        Some(("Consumer Discretionary"@, "Consumer Services"@))
    } else if 7370 <= code <= 7379 {
        Some(("Technology"@, "Software & IT Services"@))
    } else if 7300 <= code <= 7399 {
        Some(("Industrials"@, "Business Services"@))
    } else if 7400 <= code <= 7799 {
        Some(("Consumer Discretionary"@, "Consumer Services"@))
    } else if 7800 <= code <= 7899 {
        Some(("Communication Services"@, "Media & Entertainment"@))
    } else if 7900 <= code <= 7999 {
        Some(("Consumer Discretionary"@, "Entertainment & Recreation"@))
    } else if 8000 <= code <= 8099 {
        Some(("Healthcare"@, "Healthcare Services"@))
    } else if code == 8731 {
        Some(("Healthcare"@, "Biotechnology"@))
    } else if 8100 <= code <= 8999 {
        Some(("Industrials"@, "Professional Services"@))
    } else {
        None
    }
}

/// `(sector, industry)` of a SIC code string (surrounding whitespace
/// ignored); `(None, None)` when it does not parse as a `u16` or falls in
/// no range.
pub fn sector_industry(sic: &str) -> (r: (Option<&'static str>, Option<&'static str>))
    ensures
        match parse_unsigned(trimmed(sic@), 65535) {
            Some(code) => match sic_sector_industry(code as int) {
                Some((s, i)) => r.0 is Some && r.0.unwrap()@ == s && r.1 is Some && r.1.unwrap()@ == i,
                None => r.0 is None && r.1 is None,
            },
            None => r.0 is None && r.1 is None,
        },
{
    let cs = chars_of(sic);
    let t = trim_chars(&cs);
    let code = match parse_unsigned_chars(&t, 65535) {
        Some(c) => c,
        None => return (None, None),
    };
    let (s, i) =     if 100 <= code && code <= 999 {
        ("Consumer Staples", "Agriculture")
    } else if 1000 <= code && code <= 1299 {
        ("Materials", "Metals & Mining")
    } else if 1300 <= code && code <= 1399 {
        ("Energy", "Oil & Gas")
    } else if 1400 <= code && code <= 1499 {
        ("Materials", "Mining & Quarrying")
    } else if 1500 <= code && code <= 1799 {
        ("Industrials", "Construction")
    } else if 2000 <= code && code <= 2199 {
        ("Consumer Staples", "Food, Beverage & Tobacco")
    } else if 2200 <= code && code <= 2399 {
        ("Consumer Discretionary", "Textiles & Apparel")
    } else if 2400 <= code && code <= 2499 {
        ("Materials", "Wood Products")
    } else if 2500 <= code && code <= 2599 {
        ("Consumer Discretionary", "Furniture")
    } else if 2600 <= code && code <= 2699 {
        ("Materials", "Paper")
    } else if 2700 <= code && code <= 2799 {
        ("Communication Services", "Publishing")
    } else if 2834 <= code && code <= 2835 {
        ("Healthcare", "Pharmaceuticals")
    } else if code == 2836 {
        ("Healthcare", "Biotechnology")
    } else if 2800 <= code && code <= 2899 {
        ("Materials", "Chemicals")
    } else if 2900 <= code && code <= 2999 {
        ("Energy", "Petroleum Refining")
    } else if 3000 <= code && code <= 3199 {
        ("Consumer Discretionary", "Rubber, Plastics & Leather")
    } else if 3200 <= code && code <= 3299 {
        ("Materials", "Stone, Clay & Glass")
    } else if 3300 <= code && code <= 3499 {
        ("Materials", "Metals")
    } else if 3570 <= code && code <= 3579 {
        ("Technology", "Computer Hardware")
    } else if 3500 <= code && code <= 3599 {
        ("Industrials", "Machinery")
    } else if code == 3674 {
        ("Technology", "Semiconductors")
    } else if 3600 <= code && code <= 3699 {
        ("Technology", "Electronics")
    } else if 3711 <= code && code <= 3716 {
        ("Consumer Discretionary", "Automobiles")
    } else if 3700 <= code && code <= 3799 {
        ("Industrials", "Transportation Equipment")
    } else if 3841 <= code && code <= 3851 {
        ("Healthcare", "Medical Devices")
    } else if 3800 <= code && code <= 3839 {
        ("Industrials", "Instruments")
    } else if 3860 <= code && code <= 3999 {
        ("Consumer Discretionary", "Misc Manufacturing")
    } else if 4000 <= code && code <= 4799 {
        ("Industrials", "Transportation")
    } else if 4800 <= code && code <= 4899 {
        ("Communication Services", "Telecommunications")
    } else if 4900 <= code && code <= 4999 {
        ("Utilities", "Utilities")
    } else if 5000 <= code && code <= 5199 {
        ("Consumer Discretionary", "Wholesale")
    } else if 5400 <= code && code <= 5499 {
        ("Consumer Staples", "Food Retail")
    } else if 5200 <= code && code <= 5999 {
        ("Consumer Discretionary", "Retail")
    } else if code == 6022 {
        ("Financials", "Regional Banks")
    } else if 6000 <= code && code <= 6099 {
        ("Financials", "Banks")
    } else if 6100 <= code && code <= 6199 {
        ("Financials", "Credit Services")
    } else if 6200 <= code && code <= 6299 {
        ("Financials", "Capital Markets")
    } else if 6300 <= code && code <= 6499 {
        ("Financials", "Insurance")
    } else if 6500 <= code && code <= 6599 {
        ("Real Estate", "Real Estate")
    } else if code == 6798 {
        ("Real Estate", "REITs")
    } else if 6600 <= code && code <= 6799 {
        ("Financials", "Investment Offices")
    } else if 7000 <= code && code <= 7299 {
        ("Consumer Discretionary", "Consumer Services")
    } else if 7370 <= code && code <= 7379 {
        ("Technology", "Software & IT Services")
    } else if 7300 <= code && code <= 7399 {
        ("Industrials", "Business Services")
    } else if 7400 <= code && code <= 7799 {
        ("Consumer Discretionary", "Consumer Services")
    } else if 7800 <= code && code <= 7899 {
        ("Communication Services", "Media & Entertainment")
    } else if 7900 <= code && code <= 7999 {
        ("Consumer Discretionary", "Entertainment & Recreation")
    } else if 8000 <= code && code <= 8099 {
        ("Healthcare", "Healthcare Services")
    } else if code == 8731 {
        ("Healthcare", "Biotechnology")
    } else if 8100 <= code && code <= 8999 {
        ("Industrials", "Professional Services")
    } else {
        return (None, None);
    };
    (Some(s), Some(i))
}


/// The mapping ignores surrounding whitespace: a code and its trimmed text
/// parse to the same number, so they map to the same (sector, industry).
pub proof fn law_sector_industry_ignores_surrounding_whitespace(sic: Seq<char>)
    ensures
        parse_unsigned(trimmed(trimmed(sic)), 65535) == parse_unsigned(trimmed(sic), 65535),
{
    crate::parse::law_trim_is_idempotent(sic);
}

} // verus!
