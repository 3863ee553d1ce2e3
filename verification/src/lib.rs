//! Verified core of a point-in-time equity research pipeline: calendars,
//! identifiers, classification rules, earnings derivation and the integer
//! bookkeeping behind the forward-outcome and enrichment passes.

pub mod text;
pub mod ids;
pub mod dates;
pub mod sorted;
pub mod calendar;
pub mod lexsort;
pub mod earnings;
pub mod earnings_lookup;
pub mod enums;
pub mod versions;
pub mod stamps;
pub mod parse;
pub mod sic;
pub mod thresholds;
pub mod classify;
pub mod rest;
pub mod forward;
pub mod tools;
pub mod regimes;
pub mod slices;
pub mod rolling;
pub mod ranks;
pub mod flat_files;
pub mod edgar;
pub mod audit;
pub mod ticker_details;
pub mod observation;
pub mod layouts;
pub mod smoke;
pub mod classification;
pub mod shares;
