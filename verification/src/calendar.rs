//! The engine's trading calendar: which days the tape has, and each
//! day's data-derived session close.
//!
//! Trading days come from the `YYYY-MM-DD.parquet` file names of the
//! per-day bar directory; the session close of a day is the latest SPY
//! bar at or before 16:00 ET on that day's tape (half days close earlier
//! and are picked up as they are), memoised per day.

use vstd::prelude::*;
use crate::dates::{chrono_parse_ymd, et_clock, ny_wall_clock, parse_ymd};
use crate::sorted::{insert_sorted, lower_bound, strictly_sorted, upper_bound};
use crate::text::{chars_end_with, chars_of, ends_with, str_eq, string_of, string_of_range};
use std::collections::HashMap;

verus! {

broadcast use vstd::std_specs::hash::group_hash_axioms;

/// Calendar failures that are decided here; I/O and file-format failures
/// are reported by the reader around this module.
#[derive(Debug, Clone, PartialEq, Eq)]
pub enum CalendarError {
    /// The bar directory (named here) held no `YYYY-MM-DD.parquet` file.
    EmptyBarsDir(String),
    /// No bar file exists for the requested day.
    MissingDay { date: i32 },
    /// The day's file has no SPY row inside regular trading hours.
    NoSpyRows { date: i32 },
}

/// The trading day a file name stands for: `YYYY-MM-DD.parquet`.
pub open spec fn spec_day_of_file_name(name: Seq<char>) -> Option<i32> {
    if ends_with(name, ".parquet"@) {
        chrono_parse_ymd(name.subrange(0, name.len() - (".parquet"@).len()))
    } else {
        None
    }
}

/// Day of a bar file name; None for any other file.
pub fn day_of_file_name(name: &str) -> (r: Option<i32>)
    ensures
        r == spec_day_of_file_name(name@),
{
    let cs = chars_of(name);
    let suffix = chars_of(".parquet");
    if !chars_end_with(&cs, &suffix) {
        return None;
    }
    let stem = string_of_range(&cs, 0, cs.len() - suffix.len());
    parse_ymd(stem.as_str())
}

/// Last accepted ET wall-clock instant of a session bar: 16:00:00.000.
pub open spec fn within_rth_close(second_of_day: u32, nanosecond: u32) -> bool {
    second_of_day < 57_600 || (second_of_day == 57_600 && nanosecond == 0)
}

/// Row `i` is a SPY bar at or before 16:00 ET.
pub open spec fn is_anchor_close_row(symbols: Seq<String>, ts: Seq<i64>, i: int) -> bool {
    &&& symbols[i]@ == "SPY"@
    &&& within_rth_close(ny_wall_clock(ts[i]).1, ny_wall_clock(ts[i]).2)
}

/// Latest SPY bar time at or before 16:00 ET among the rows
/// `(symbols[i], ts[i])`; None when there is none.
pub fn anchor_session_close(symbols: &Vec<String>, ts: &Vec<i64>) -> (r: Option<i64>)
    requires
        symbols@.len() == ts@.len(),
    ensures
        match r {
            Some(m) => {
                &&& exists|i: int| 0 <= i < ts@.len() && is_anchor_close_row(symbols@, ts@, i) && ts@[i] == m
                &&& forall|i: int| 0 <= i < ts@.len() && is_anchor_close_row(symbols@, ts@, i) ==> ts@[i] <= m
            },
            None => forall|i: int| 0 <= i < ts@.len() ==> !is_anchor_close_row(symbols@, ts@, i),
        },
{
    let mut best: Option<i64> = None;
    let mut i: usize = 0;
    while i < ts.len()
        invariant
            symbols@.len() == ts@.len(),
            i <= ts@.len(),
            match best {
                Some(m) => {
                    &&& exists|k: int| 0 <= k < i && is_anchor_close_row(symbols@, ts@, k) && ts@[k] == m
                    &&& forall|k: int| 0 <= k < i && is_anchor_close_row(symbols@, ts@, k) ==> ts@[k] <= m
                },
                None => forall|k: int| 0 <= k < i ==> !is_anchor_close_row(symbols@, ts@, k),
            },
        decreases ts@.len() - i,
    {
        let is_spy = str_eq(symbols[i].as_str(), "SPY");
        if is_spy {
            let c = et_clock(ts[i]);
            if c.second_of_day < 57_600 || (c.second_of_day == 57_600 && c.nanosecond == 0) {
                let t = ts[i];
                best = match best {
                    Some(m) => if t > m { Some(t) } else { Some(m) },
                    None => Some(t),
                };
            }
        }
        i += 1;
    }
    best
}

/// The least of `days` that is on or after `day`.
pub open spec fn first_on_or_after(days: Seq<i32>, day: i32) -> Option<i32>
    decreases days.len(),
{
    if days.len() == 0 {
        None
    } else {
        let l = days.last();
        match first_on_or_after(days.drop_last(), day) {
            Some(d) => if day <= l && l < d { Some(l) } else { Some(d) },
            None => if day <= l { Some(l) } else { None },
        }
    }
}

/// The greatest of `days` that is on or before `day`.
pub open spec fn last_on_or_before(days: Seq<i32>, day: i32) -> Option<i32>
    decreases days.len(),
{
    if days.len() == 0 {
        None
    } else {
        let l = days.last();
        match last_on_or_before(days.drop_last(), day) {
            Some(d) => if l <= day && d < l { Some(l) } else { Some(d) },
            None => if l <= day { Some(l) } else { None },
        }
    }
}

/// Sorted, duplicate-free trading days plus the memoised session closes.
pub struct Calendar {
    trading_days: Vec<i32>,
    closes: HashMap<i32, i64>,
}

impl Calendar {
    #[verifier::type_invariant]
    spec fn well_formed(self) -> bool {
        strictly_sorted(self.trading_days@)
    }

    /// Trading days, ascending.
    pub closed spec fn days(&self) -> Seq<i32> {
        self.trading_days@
    }

    /// Session closes computed so far (day → UTC nanoseconds).
    pub closed spec fn closes(&self) -> Map<i32, i64> {
        self.closes@
    }

    /// Builds the calendar from the names of the regular files in the bar
    /// directory `bars_dir`. Names that are not `YYYY-MM-DD.parquet` are
    /// ignored; an empty result is an error that names the directory.
    pub fn from_file_names(bars_dir: &str, names: &Vec<String>) -> (r: Result<Calendar, CalendarError>)
        ensures
            match r {
                Ok(cal) => {
                    &&& strictly_sorted(cal.days())
                    &&& cal.days().len() > 0
                    &&& forall|d: i32| cal.days().contains(d) <==> exists|i: int|
                        0 <= i < names@.len() && spec_day_of_file_name(#[trigger] names@[i]@) == Some(d)
                    &&& cal.closes() == Map::<i32, i64>::empty()
                },
                Err(e) => {
                    &&& e matches CalendarError::EmptyBarsDir(dir) && dir@ == bars_dir@
                    &&& forall|i: int| 0 <= i < names@.len() ==> spec_day_of_file_name(#[trigger] names@[i]@) is None
                },
            },
    {
        let mut days: Vec<i32> = Vec::new();
        let mut i: usize = 0;
        while i < names.len()
            invariant
                i <= names@.len(),
                strictly_sorted(days@),
                forall|d: i32| days@.contains(d) <==> exists|k: int|
                    0 <= k < i && spec_day_of_file_name(#[trigger] names@[k]@) == Some(d),
            decreases names@.len() - i,
        {
            let parsed = day_of_file_name(names[i].as_str());
            let ghost prev = days@;
            match parsed {
                Some(d) => {
                    insert_sorted(&mut days, d);
                },
                None => {},
            }
            assert forall|d: i32| days@.contains(d) <==> exists|k: int|
                0 <= k < i + 1 && spec_day_of_file_name(#[trigger] names@[k]@) == Some(d) by {
                if days@.contains(d) && !prev.contains(d) {
                    assert(spec_day_of_file_name(names@[i as int]@) == Some(d));
                }
                if exists|k: int| 0 <= k < i + 1 && spec_day_of_file_name(#[trigger] names@[k]@) == Some(d) {
                    let k = choose|k: int| 0 <= k < i + 1 && spec_day_of_file_name(#[trigger] names@[k]@) == Some(d);
                    if k < i {
                        assert(prev.contains(d));
                    }
                }
            }
            i += 1;
        }
        if days.len() == 0 {
            assert forall|i: int| 0 <= i < names@.len() implies spec_day_of_file_name(#[trigger] names@[i]@) is None by {
                if let Some(d) = spec_day_of_file_name(names@[i]@) {
                    assert(days@.contains(d));
                }
            }
            let dir = string_of(&chars_of(bars_dir));
            return Err(CalendarError::EmptyBarsDir(dir));
        }
        Ok(Calendar { trading_days: days, closes: HashMap::new() })
    }

    /// All trading days, ascending.
    pub fn trading_days(&self) -> (r: &[i32])
        ensures
            r@ == self.days(),
            strictly_sorted(r@),
    {
        proof { use_type_invariant(self); }
        self.trading_days.as_slice()
    }

    /// True iff the tape has bars for `day`.
    pub fn has_day(&self, day: i32) -> (r: bool)
        ensures
            r == self.days().contains(day),
    {
        proof { use_type_invariant(self); }
        let idx = lower_bound(self.trading_days.as_slice(), day);
        let r = idx < self.trading_days.len() && self.trading_days[idx] == day;
        proof {
            if self.days().contains(day) {
                let k = choose|k: int| 0 <= k < self.days().len() && self.days()[k] == day;
                assert(k >= idx);
                if k > idx {
                    assert(self.days()[idx as int] < self.days()[k]);
                }
            }
        }
        r
    }

    /// First trading day on or after `day`.
    pub fn next_trading_day(&self, day: i32) -> (r: Option<i32>)
        ensures
            r == first_on_or_after(self.days(), day),
            match r {
                Some(d) => {
                    &&& self.days().contains(d)
                    &&& day <= d
                    &&& forall|x: i32| self.days().contains(x) && day <= x ==> d <= x
                },
                None => forall|x: i32| self.days().contains(x) ==> x < day,
            },
    {
        proof { use_type_invariant(self); }
        let idx = lower_bound(self.trading_days.as_slice(), day);
        if idx < self.trading_days.len() {
            let d = self.trading_days[idx];
            proof {
                assert(self.days()[idx as int] == d);
                assert forall|x: i32| self.days().contains(x) && day <= x implies d <= x by {
                    let k = choose|k: int| 0 <= k < self.days().len() && self.days()[k] == x;
                    if k < idx {
                        assert(self.days()[k] < day);
                    } else if k > idx {
                        assert(self.days()[idx as int] < self.days()[k]);
                    }
                }
                assert(self.days().contains(d));
                lemma_neighbour_props(self.days(), day);
            }
            Some(d)
        } else {
            proof {
                assert forall|x: i32| self.days().contains(x) implies x < day by {
                    let k = choose|k: int| 0 <= k < self.days().len() && self.days()[k] == x;
                }
                lemma_neighbour_props(self.days(), day);
            }
            None
        }
    }

    /// Last trading day on or before `day`.
    pub fn prev_trading_day(&self, day: i32) -> (r: Option<i32>)
        ensures
            r == last_on_or_before(self.days(), day),
            match r {
                Some(d) => {
                    &&& self.days().contains(d)
                    &&& d <= day
                    &&& forall|x: i32| self.days().contains(x) && x <= day ==> x <= d
                },
                None => forall|x: i32| self.days().contains(x) ==> day < x,
            },
    {
        proof { use_type_invariant(self); }
        let idx = upper_bound(self.trading_days.as_slice(), day);
        if idx == 0 {
            proof {
                assert forall|x: i32| self.days().contains(x) implies day < x by {
                    let k = choose|k: int| 0 <= k < self.days().len() && self.days()[k] == x;
                }
                lemma_neighbour_props(self.days(), day);
            }
            None
        } else {
            let d = self.trading_days[idx - 1];
            proof {
                assert(self.days()[idx - 1] == d);
                assert forall|x: i32| self.days().contains(x) && x <= day implies x <= d by {
                    let k = choose|k: int| 0 <= k < self.days().len() && self.days()[k] == x;
                    if k >= idx {
                        assert(self.days()[k] > day);
                    } else if k < idx - 1 {
                        assert(self.days()[k] < self.days()[idx - 1]);
                    }
                }
                assert(self.days().contains(d));
                lemma_neighbour_props(self.days(), day);
            }
            Some(d)
        }
    }

    /// The memoised session close of `day`, if computed already.
    pub fn cached_close(&self, day: i32) -> (r: Option<i64>)
        ensures
            r == (if self.closes().contains_key(day) { Some(self.closes()[day]) } else { None }),
    {
        match self.closes.get(&day) {
            Some(t) => Some(*t),
            None => None,
        }
    }

    /// Session close of `day` given the day file's `(display_symbol, t)`
    /// rows: the memoised value when there is one, else the latest SPY bar
    /// at or before 16:00 ET, which is then memoised.
    pub fn session_close_from_rows(&mut self, day: i32, symbols: &Vec<String>, ts: &Vec<i64>) -> (r: Result<i64, CalendarError>)
        requires
            symbols@.len() == ts@.len(),
        ensures
            final(self).days() == old(self).days(),
            old(self).closes().contains_key(day) ==> {
                &&& r == Ok::<i64, CalendarError>(old(self).closes()[day])
                &&& final(self).closes() == old(self).closes()
            },
            !old(self).closes().contains_key(day) ==> match r {
                Ok(c) => {
                    &&& final(self).closes() == old(self).closes().insert(day, c)
                    &&& exists|i: int| 0 <= i < ts@.len() && is_anchor_close_row(symbols@, ts@, i) && ts@[i] == c
                    &&& forall|i: int| 0 <= i < ts@.len() && is_anchor_close_row(symbols@, ts@, i) ==> ts@[i] <= c
                },
                Err(e) => {
                    &&& e == CalendarError::NoSpyRows { date: day }
                    &&& final(self).closes() == old(self).closes()
                    &&& forall|i: int| 0 <= i < ts@.len() ==> !is_anchor_close_row(symbols@, ts@, i)
                },
            },
    {
        proof { use_type_invariant(&*self); }
        if let Some(t) = self.cached_close(day) {
            return Ok(t);
        }
        match anchor_session_close(symbols, ts) {
            Some(c) => {
                let mut m: HashMap<i32, i64> = HashMap::new();
                std::mem::swap(&mut m, &mut self.closes);
                m.insert(day, c);
                self.closes = m;
                Ok(c)
            },
            None => Err(CalendarError::NoSpyRows { date: day }),
        }
    }
}

impl Calendar {
    /// Session close of `day` given what its day file held: `None` when the
    /// file does not exist (`MissingDay`), else its `(display_symbol, t)`
    /// rows. A memoised close is returned as it is, whatever the file.
    pub fn session_close_of_day_file(&mut self, day: i32, file: Option<(&Vec<String>, &Vec<i64>)>) -> (r: Result<i64, CalendarError>)
        requires
            file matches Some((symbols, ts)) ==> symbols@.len() == ts@.len(),
        ensures
            final(self).days() == old(self).days(),
            old(self).closes().contains_key(day) ==> {
                &&& r == Ok::<i64, CalendarError>(old(self).closes()[day])
                &&& final(self).closes() == old(self).closes()
            },
            !old(self).closes().contains_key(day) ==> match file {
                None => {
                    &&& r == Err::<i64, CalendarError>(CalendarError::MissingDay { date: day })
                    &&& final(self).closes() == old(self).closes()
                },
                Some((symbols, ts)) => match r {
                    Ok(c) => {
                        &&& final(self).closes() == old(self).closes().insert(day, c)
                        &&& exists|i: int| 0 <= i < ts@.len() && is_anchor_close_row(symbols@, ts@, i) && ts@[i] == c
                        &&& forall|i: int| 0 <= i < ts@.len() && is_anchor_close_row(symbols@, ts@, i) ==> ts@[i] <= c
                    },
                    Err(e) => {
                        &&& e == CalendarError::NoSpyRows { date: day }
                        &&& final(self).closes() == old(self).closes()
                        &&& forall|i: int| 0 <= i < ts@.len() ==> !is_anchor_close_row(symbols@, ts@, i)
                    },
                },
            },
    {
        if let Some(t) = self.cached_close(day) {
            return Ok(t);
        }
        match file {
            None => Err(CalendarError::MissingDay { date: day }),
            Some((symbols, ts)) => self.session_close_from_rows(day, symbols, ts),
        }
    }
}

proof fn lemma_contains_split(days: Seq<i32>, x: i32)
    requires
        days.len() > 0,
    ensures
        days.contains(x) <==> (days.drop_last().contains(x) || x == days.last()),
{
    if days.contains(x) {
        let k = choose|k: int| 0 <= k < days.len() && days[k] == x;
        if k < days.len() - 1 {
            assert(days.drop_last()[k] == x);
        }
    }
    if days.drop_last().contains(x) {
        let k = choose|k: int| 0 <= k < days.drop_last().len() && days.drop_last()[k] == x;
        assert(days[k] == x);
    }
    if x == days.last() {
        assert(days[days.len() - 1] == x);
    }
}

/// The defining properties of `first_on_or_after` / `last_on_or_before`.
pub proof fn lemma_neighbour_props(days: Seq<i32>, day: i32)
    ensures
        match first_on_or_after(days, day) {
            Some(n) => days.contains(n) && day <= n && forall|x: i32| days.contains(x) && day <= x ==> n <= x,
            None => forall|x: i32| days.contains(x) ==> x < day,
        },
        match last_on_or_before(days, day) {
            Some(p) => days.contains(p) && p <= day && forall|x: i32| days.contains(x) && x <= day ==> x <= p,
            None => forall|x: i32| days.contains(x) ==> day < x,
        },
    decreases days.len(),
{
    if days.len() == 0 {
        return;
    }
    let rest = days.drop_last();
    lemma_neighbour_props(rest, day);
    lemma_contains_split(days, days.last());
    if let Some(d) = first_on_or_after(rest, day) {
        lemma_contains_split(days, d);
    }
    if let Some(d) = last_on_or_before(rest, day) {
        lemma_contains_split(days, d);
    }
    assert forall|x: i32| days.contains(x) implies (rest.contains(x) || x == days.last()) by {
        lemma_contains_split(days, x);
    }
}

/// A day is a trading day exactly when/// A day is a trading day exactly when it is its own next trading day,
/// and exactly when it is its own previous trading day.
pub proof fn law_trading_day_is_its_own_neighbour(days: Seq<i32>, day: i32)
    ensures
        first_on_or_after(days, day) == Some(day) <==> days.contains(day),
        last_on_or_before(days, day) == Some(day) <==> days.contains(day),
{
    lemma_neighbour_props(days, day);
}

/// The previous and next trading days bracket `day`, and no trading day
/// lies strictly between them other than `day` itself.
pub proof fn law_neighbours_bracket_day(days: Seq<i32>, day: i32)
    ensures
        first_on_or_after(days, day) matches Some(n) ==> day <= n && days.contains(n),
        last_on_or_before(days, day) matches Some(p) ==> p <= day && days.contains(p),
        forall|x: i32| #[trigger] days.contains(x) ==> match (first_on_or_after(days, day), last_on_or_before(days, day)) {
            (Some(n), Some(p)) => x <= p || n <= x,
            _ => true,
        },
{
    lemma_neighbour_props(days, day);
}

/// Moving to the next trading day is idempotent, and the previous trading
/// day of a trading day is itself.
pub proof fn law_next_trading_day_idempotent(days: Seq<i32>, day: i32)
    ensures
        first_on_or_after(days, day) matches Some(n) ==> {
            &&& first_on_or_after(days, n) == Some(n)
            &&& last_on_or_before(days, n) == Some(n)
        },
{
    lemma_neighbour_props(days, day);
    if let Some(n) = first_on_or_after(days, day) {
        law_trading_day_is_its_own_neighbour(days, n);
    }
}

/// A computed session close is served back unchanged for that day.
pub proof fn law_session_close_is_memoised(closes: Map<i32, i64>, day: i32, close: i64)
    ensures
        closes.insert(day, close).contains_key(day),
        closes.insert(day, close)[day] == close,
{
}

} // verus!
