//! Calendar days and US/Eastern wall-clock conversions.
//!
//! A day is modelled as its chrono day number (`num_days_from_ce`: 0001-01-01
//! is day 1), so day arithmetic and ordering are plain integer arithmetic
//! and ordering. Instants are UTC nanoseconds since the Unix epoch. The
//! calendar and time-zone rules themselves stay with `chrono` /
//! `chrono-tz`, reached through the wrappers below.

use vstd::prelude::*;
use chrono::Datelike;
use chrono::TimeZone;
use chrono::Timelike;

verus! {

/// Day number of 1970-01-01 (the Arrow `Date32` epoch).
pub const UNIX_EPOCH_DAY: i32 = 719_163;

/// Nanoseconds in one minute.
pub const NANOS_PER_MINUTE: i64 = 60_000_000_000;

/// Result of `NaiveDate::parse_from_str(text, "%Y-%m-%d")`, as a day number.
pub uninterp spec fn chrono_parse_ymd(text: Seq<char>) -> Option<i32>;

/// `(year, month, day)` of `NaiveDate::from_num_days_from_ce_opt(day)`.
pub uninterp spec fn chrono_ymd_of_day(day: i32) -> Option<(i32, u32, u32)>;

/// The `Display` text of `NaiveDate::from_num_days_from_ce_opt(day)`.
pub uninterp spec fn chrono_date_text(day: i32) -> Option<Seq<char>>;

/// UTC nanoseconds of the unique instant at wall-clock `hour:minute:00` in
/// `America/New_York` on `day` (None when the local time is skipped or
/// repeated by a DST transition, or out of range).
pub uninterp spec fn ny_local_to_utc_ns(day: i32, hour: u32, minute: u32) -> Option<i64>;

/// `(local day, seconds since local midnight, nanosecond)` of the UTC
/// instant `ns` seen in `America/New_York`.
pub uninterp spec fn ny_wall_clock(ns: i64) -> (i32, u32, u32);

/// UTC nanoseconds of `chrono::DateTime::parse_from_rfc3339(text)`; None
/// when the text does not parse or the instant does not fit in an `i64`.
pub uninterp spec fn chrono_rfc3339_ns(text: Seq<char>) -> Option<i64>;

/// Calls `chrono::DateTime::parse_from_rfc3339(text)`, converts to UTC and
/// reads `timestamp_nanos_opt`; the contract names the result (RFC 3339
/// parsing is not restated).
#[verifier::external_body]
pub(crate) fn rfc3339_ns(text: &str) -> (r: Option<i64>)
    ensures
        r == chrono_rfc3339_ns(text@),
{
    match chrono::DateTime::parse_from_rfc3339(text) {
        Ok(t) => t.with_timezone(&chrono::Utc).timestamp_nanos_opt(),
        Err(_) => None,
    }
}

/// Calls `chrono::NaiveDate::parse_from_str(text, "%Y-%m-%d")`; the
/// contract names its result (chrono's `%Y-%m-%d` grammar is not restated).
#[verifier::external_body]
pub(crate) fn parse_ymd(text: &str) -> (r: Option<i32>)
    ensures
        r == chrono_parse_ymd(text@),
{
    match chrono::NaiveDate::parse_from_str(text, "%Y-%m-%d") {
        Ok(d) => Some(d.num_days_from_ce()),
        Err(_) => None,
    }
}

/// An RFC 3339 timestamp as UTC nanoseconds; `None` when the text does not
/// parse or the instant does not fit in an `i64`.
pub fn parse_timestamp(text: &str) -> (r: Option<i64>)
    ensures
        r == chrono_rfc3339_ns(text@),
{
    rfc3339_ns(text)
}

/// An optional RFC 3339 timestamp as UTC nanoseconds; `None` when absent or
/// unparseable.
pub fn parse_ts(text: &Option<String>) -> (r: Option<i64>)
    ensures
        r == (match text {
            Some(s) => chrono_rfc3339_ns(s@),
            None => None,
        }),
{
    match text {
        Some(s) => rfc3339_ns(s.as_str()),
        None => None,
    }
}

/// Day number of a `YYYY-MM-DD` text; `None` when it does not parse.
pub fn parse_date(text: &str) -> (r: Option<i32>)
    ensures
        r == chrono_parse_ymd(text@),
{
    parse_ymd(text)
}

/// Day number of an optional `YYYY-MM-DD` text; `None` when absent or
/// unparseable.
pub fn parse_date_opt(text: &Option<String>) -> (r: Option<i32>)
    ensures
        r == (match text {
            Some(s) => chrono_parse_ymd(s@),
            None => None,
        }),
{
    match text {
        Some(s) => parse_ymd(s.as_str()),
        None => None,
    }
}

/// Seconds since local midnight of the UTC instant `ns` on the New York
/// wall clock.
pub fn et_second_of_day(ns: i64) -> (r: u32)
    ensures
        r == ny_wall_clock(ns).1,
        r < 86_400,
{
    et_clock(ns).second_of_day
}

/// `YYYY-MM-DD` text of a day number; `None` outside chrono's date range.
pub fn format_date(day: i32) -> (r: Option<String>)
    ensures
        match r {
            Some(s) => chrono_date_text(day) == Some(s@),
            None => chrono_date_text(day) is None,
        },
{
    date_text(day)
}

/// Calls `chrono::NaiveDate::from_num_days_from_ce_opt` and reads the
/// date's year, month and day; the contract names the result and states
/// the month/day ranges chrono documents for `month()` / `day()`.
#[verifier::external_body]
pub(crate) fn ymd_of_day(day: i32) -> (r: Option<(i32, u32, u32)>)
    ensures
        r == chrono_ymd_of_day(day),
        r matches Some((y, m, d)) ==> 1 <= m <= 12 && 1 <= d <= 31,
{
    match chrono::NaiveDate::from_num_days_from_ce_opt(day) {
        Some(d) => Some((d.year(), d.month(), d.day())),
        None => None,
    }
}

/// Calls `chrono::NaiveDate::from_num_days_from_ce_opt` and formats the
/// date with its `Display` impl (`YYYY-MM-DD`); the contract names the
/// text and does not restate chrono's formatting of out-of-range years.
#[verifier::external_body]
pub(crate) fn date_text(day: i32) -> (r: Option<String>)
    ensures
        match r {
            Some(s) => chrono_date_text(day) == Some(s@),
            None => chrono_date_text(day) is None,
        },
{
    match chrono::NaiveDate::from_num_days_from_ce_opt(day) {
        Some(d) => Some(d.to_string()),
        None => None,
    }
}

/// `day` at `hour:minute` ET → UTC nanoseconds. Calls
/// `chrono_tz::America::New_York.from_local_datetime(..).single()` and
/// `timestamp_nanos_opt`; the contract names the result (the tz database
/// is chrono-tz's).
#[verifier::external_body]
pub fn et(day: i32, hour: u32, minute: u32) -> (r: Option<i64>)
    ensures
        r == ny_local_to_utc_ns(day, hour, minute),
{
    let local = match chrono::NaiveDate::from_num_days_from_ce_opt(day) {
        Some(d) => d.and_hms_opt(hour, minute, 0),
        None => None,
    };
    match local {
        Some(l) => match chrono_tz::America::New_York.from_local_datetime(&l).single() {
            Some(t) => t.with_timezone(&chrono::Utc).timestamp_nanos_opt(),
            None => None,
        },
        None => None,
    }
}

/// ET wall clock of an instant.
#[derive(Debug, Clone, Copy, PartialEq, Eq)]
pub struct EtClock {
    /// Local calendar day (day number).
    pub day: i32,
    /// Whole seconds since local midnight.
    pub second_of_day: u32,
    /// Nanoseconds within the second.
    pub nanosecond: u32,
}

/// Calls `Utc.timestamp_nanos(ns).with_timezone(&New_York)` and reads the
/// local date, `num_seconds_from_midnight` and `nanosecond`. The contract
/// names the triple and states the documented range of
/// `num_seconds_from_midnight` (non-leap seconds since midnight).
#[verifier::external_body]
pub(crate) fn et_clock(ns: i64) -> (r: EtClock)
    ensures
        (r.day, r.second_of_day, r.nanosecond) == ny_wall_clock(ns),
        r.second_of_day < 86_400,
{
    let t = chrono::Utc.timestamp_nanos(ns).with_timezone(&chrono_tz::America::New_York);
    EtClock {
        day: t.date_naive().num_days_from_ce(),
        second_of_day: t.time().num_seconds_from_midnight(),
        nanosecond: t.time().nanosecond(),
    }
}

/// Day of week, Monday = 0 … Sunday = 6 (0001-01-01, day 1, was a Monday
/// in the proleptic Gregorian calendar).
pub open spec fn spec_weekday_from_monday(day: int) -> int {
    (day - 1) % 7
}

/// `Datelike::weekday().num_days_from_monday()` of the day.
pub fn weekday_from_monday(day: i32) -> (r: u32)
    ensures
        r == spec_weekday_from_monday(day as int),
        r < 7,
{
    let m = ((day as i64) - 1) % 7;
    let r = if m < 0 { m + 7 } else { m };
    assert(r == spec_weekday_from_monday(day as int));
    r as u32
}

/// Saturday or Sunday.
pub fn is_weekend(day: i32) -> (r: bool)
    ensures
        r == (spec_weekday_from_monday(day as int) >= 5),
{
    weekday_from_monday(day) >= 5
}

/// Days since 1970-01-01 (the Arrow `Date32` value of the day).
pub fn date32(day: i32) -> (r: i32)
    requires
        day >= i32::MIN + UNIX_EPOCH_DAY,
    ensures
        r == day - UNIX_EPOCH_DAY,
{
    day - UNIX_EPOCH_DAY
}

} // verus!
