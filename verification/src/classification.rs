//! Per-row reference columns of the daily classification table: the
//! security-type flags read from the ticker type and SIC code, the listing
//! status, and the days since listing (or since the first bar).

use vstd::prelude::*;
use crate::text::{chars_of, str_eq};

verus! {

/// Every row of the daily table is a trading day of the security.
pub const LISTING_STATUS: &'static str = "trading";

/// SIC code of blank-check companies.
pub const SPAC_SIC_CODE: &'static str = "6770";

/// A first bar counts as a listing only this many days or more after the
/// dataset starts; earlier first bars are the dataset's own edge.
pub const FIRST_BAR_GRACE_DAYS: i64 = 7;

/// The security-type flags of one row. A flag that reads the ticker type
/// is `None` when the type is unknown.
#[derive(Debug, Clone, Copy, PartialEq, Eq)]
pub struct SecurityFlags {
    pub is_common_stock: Option<bool>,
    pub is_etf: Option<bool>,
    pub is_leveraged_etf: bool,
    pub is_inverse_etf: bool,
    pub is_etn: Option<bool>,
    pub is_adr: Option<bool>,
    pub is_spac: bool,
    pub is_warrant: Option<bool>,
    pub is_preferred: Option<bool>,
    pub is_unit: Option<bool>,
}

pub open spec fn opt_view(o: Option<&str>) -> Option<Seq<char>> {
    match o {
        Some(s) => Some(s@),
        None => None,
    }
}

/// Fund-like types: `ETF`, `ETV`, `ETS`, `FUND`.
pub open spec fn is_fund_type(t: Seq<char>) -> bool {
    t == "ETF"@ || t == "ETV"@ || t == "ETS"@ || t == "FUND"@
}

/// Types that begin with `ADR`.
pub open spec fn is_adr_type(t: Seq<char>) -> bool {
    t.len() >= 3 && t[0] == 'A' && t[1] == 'D' && t[2] == 'R'
}

pub open spec fn type_flag(t: Option<Seq<char>>, f: spec_fn(Seq<char>) -> bool) -> Option<bool> {
    match t {
        Some(s) => Some(f(s)),
        None => None,
    }
}

/// The flags for a ticker type and SIC code; `leveraged_beta` and
/// `inverse_beta` say whether the 60-day SPY beta is at least 1.8 in size,
/// and at most -0.5.
pub open spec fn spec_security_flags(
    t: Option<Seq<char>>,
    sic: Option<Seq<char>>,
    leveraged_beta: bool,
    inverse_beta: bool,
) -> SecurityFlags {
    let fund = t matches Some(s) && is_fund_type(s);
    SecurityFlags {
        is_common_stock: type_flag(t, |s: Seq<char>| s == "CS"@),
        is_etf: type_flag(t, |s: Seq<char>| is_fund_type(s)),
        is_leveraged_etf: fund && leveraged_beta,
        is_inverse_etf: fund && inverse_beta,
        is_etn: type_flag(t, |s: Seq<char>| s == "ETN"@),
        is_adr: type_flag(t, |s: Seq<char>| is_adr_type(s)),
        is_spac: sic == Some(SPAC_SIC_CODE@),
        is_warrant: type_flag(t, |s: Seq<char>| s == "WARRANT"@),
        is_preferred: type_flag(t, |s: Seq<char>| s == "PFD"@),
        is_unit: type_flag(t, |s: Seq<char>| s == "UNIT"@),
    }
}

fn starts_with_adr(t: &str) -> (r: bool)
    ensures
        r == is_adr_type(t@),
{
    let cs = chars_of(t);
    cs.len() >= 3 && cs[0] == 'A' && cs[1] == 'D' && cs[2] == 'R'
}

fn fund_type(t: &str) -> (r: bool)
    ensures
        r == is_fund_type(t@),
{
    str_eq(t, "ETF") || str_eq(t, "ETV") || str_eq(t, "ETS") || str_eq(t, "FUND")
}

/// The security-type flags of a row.
pub fn security_flags(
    ticker_type: Option<&str>,
    sic_code: Option<&str>,
    leveraged_beta: bool,
    inverse_beta: bool,
) -> (r: SecurityFlags)
    ensures
        r == spec_security_flags(opt_view(ticker_type), opt_view(sic_code), leveraged_beta, inverse_beta),
{
    let is_spac = match sic_code {
        Some(s) => str_eq(s, SPAC_SIC_CODE),
        None => false,
    };
    match ticker_type {
        Some(t) => {
            let fund = fund_type(t);
            SecurityFlags {
                is_common_stock: Some(str_eq(t, "CS")),
                is_etf: Some(fund),
                is_leveraged_etf: fund && leveraged_beta,
                is_inverse_etf: fund && inverse_beta,
                is_etn: Some(str_eq(t, "ETN")),
                is_adr: Some(starts_with_adr(t)),
                is_spac,
                is_warrant: Some(str_eq(t, "WARRANT")),
                is_preferred: Some(str_eq(t, "PFD")),
                is_unit: Some(str_eq(t, "UNIT")),
            }
        },
        None => SecurityFlags {
            is_common_stock: None,
            is_etf: None,
            is_leveraged_etf: false,
            is_inverse_etf: false,
            is_etn: None,
            is_adr: None,
            is_spac,
            is_warrant: None,
            is_preferred: None,
            is_unit: None,
        },
    }
}

/// Days from listing to `day`; without a listing day, days from the first
/// bar when that bar came more than the grace period after the dataset
/// start. The day count is cut to 32 bits as the column stores it.
pub open spec fn spec_days_since_listing(
    day: i32,
    list_date: Option<i32>,
    first_bar_day: Option<i32>,
    dataset_start: i32,
) -> Option<i32> {
    match list_date {
        Some(ld) => Some((day - ld) as i32),
        None => match first_bar_day {
            Some(fb) => if fb - dataset_start > FIRST_BAR_GRACE_DAYS {
                Some((day - fb) as i32)
            } else {
                None
            },
            None => None,
        },
    }
}

/// `days_since_ipo_or_first_bar` of a row on `day`.
pub fn days_since_listing(
    day: i32,
    list_date: Option<i32>,
    first_bar_day: Option<i32>,
    dataset_start: i32,
) -> (r: Option<i32>)
    ensures
        r == spec_days_since_listing(day, list_date, first_bar_day, dataset_start),
{
    match list_date {
        Some(ld) => Some((day as i64 - ld as i64) as i32),
        None => match first_bar_day {
            Some(fb) => if fb as i64 - dataset_start as i64 > FIRST_BAR_GRACE_DAYS {
                Some((day as i64 - fb as i64) as i32)
            } else {
                None
            },
            None => None,
        },
    }
}

/// The flags in terms of the ticker type `t` and SIC code: for a known
/// type, `is_common_stock` is whether it is `CS`, `is_etf` whether it is
/// `ETF`, `ETV`, `ETS` or `FUND`, `is_etn` whether it is `ETN`, `is_adr`
/// whether it begins with `ADR`, `is_warrant` whether it is `WARRANT`,
/// `is_preferred` whether it is `PFD` and `is_unit` whether it is `UNIT`
/// (so no row is both an ETF and an ETN, nor common stock and an ETF); for
/// an unknown type these are all null and neither leveraged nor inverse
/// holds; leveraged and inverse need a fund type and their beta fact;
/// `is_spac` is whether the SIC code is `6770`.
pub proof fn law_security_flags(t: Option<Seq<char>>, sic: Option<Seq<char>>, leveraged_beta: bool, inverse_beta: bool)
    ensures
        ({
            let f = spec_security_flags(t, sic, leveraged_beta, inverse_beta);
            let fund = t == Some("ETF"@) || t == Some("ETV"@) || t == Some("ETS"@) || t == Some("FUND"@);
            &&& f.is_spac == (sic == Some("6770"@))
            &&& f.is_leveraged_etf == (fund && leveraged_beta)
            &&& f.is_inverse_etf == (fund && inverse_beta)
            &&& match t {
                Some(x) => {
                    &&& f.is_common_stock == Some(x == "CS"@)
                    &&& f.is_etf == Some(fund)
                    &&& f.is_etn == Some(x == "ETN"@)
                    &&& f.is_adr == Some(x.len() >= 3 && x.subrange(0, 3) == "ADR"@)
                    &&& f.is_warrant == Some(x == "WARRANT"@)
                    &&& f.is_preferred == Some(x == "PFD"@)
                    &&& f.is_unit == Some(x == "UNIT"@)
                    &&& !(f.is_etf == Some(true) && f.is_etn == Some(true))
                    &&& !(f.is_etf == Some(true) && f.is_common_stock == Some(true))
                },
                None => {
                    &&& f.is_common_stock is None && f.is_etf is None && f.is_etn is None && f.is_adr is None
                    &&& f.is_warrant is None && f.is_preferred is None && f.is_unit is None
                },
            }
        }),
{
    reveal_strlit("ADR");
    reveal_strlit("ETF");
    reveal_strlit("ETV");
    reveal_strlit("ETS");
    reveal_strlit("FUND");
    reveal_strlit("ETN");
    reveal_strlit("CS");
    reveal_strlit("6770");
    if let Some(x) = t {
        if x.len() >= 3 {
            assert((x.subrange(0, 3) == "ADR"@) == (x[0] == 'A' && x[1] == 'D' && x[2] == 'R')) by {
                if x[0] == 'A' && x[1] == 'D' && x[2] == 'R' {
                    assert(x.subrange(0, 3) =~= "ADR"@);
                }
                if x.subrange(0, 3) == "ADR"@ {
                    assert(x.subrange(0, 3)[0] == x[0] && x.subrange(0, 3)[1] == x[1] && x.subrange(0, 3)[2] == x[2]);
                    assert(("ADR"@)[0] == 'A' && ("ADR"@)[1] == 'D' && ("ADR"@)[2] == 'R');
                }
            }
        }
        if x == "ETN"@ {
            assert(x.len() == 3 && x[2] == 'N');
            assert(x != "ETF"@ && x != "ETV"@ && x != "ETS"@ && x != "FUND"@) by {
                assert(("ETF"@)[2] == 'F' && ("ETV"@)[2] == 'V' && ("ETS"@)[2] == 'S' && ("FUND"@).len() == 4);
            }
        }
        if x == "CS"@ {
            assert(x != "ETF"@ && x != "ETV"@ && x != "ETS"@ && x != "FUND"@) by {
                assert(("ETF"@).len() == 3 && ("ETV"@).len() == 3 && ("ETS"@).len() == 3 && ("FUND"@).len() == 4);
            }
        }
    }
}

/// Days since listing, for day numbers whose differences fit the column:
/// with a list date, the calendar days from it to `day`; without one, the
/// days from the first bar when that bar is more than 7 days after the
/// dataset start, else null.
pub proof fn law_days_since_listing(day: i32, list_date: Option<i32>, first_bar_day: Option<i32>, dataset_start: i32)
    requires
        list_date matches Some(ld) ==> i32::MIN <= day - ld <= i32::MAX,
        first_bar_day matches Some(fb) ==> i32::MIN <= day - fb <= i32::MAX,
    ensures
        ({
            let r = spec_days_since_listing(day, list_date, first_bar_day, dataset_start);
            &&& list_date matches Some(ld) ==> r == Some((day - ld) as i32) && r.unwrap() == day - ld
            &&& list_date is None ==> match first_bar_day {
                Some(fb) => if fb - dataset_start > 7 { r is Some && r.unwrap() == day - fb } else { r is None },
                None => r is None,
            }
        }),
{
}

} // verus!
