//! Column layouts of the output tables: each column's name, value kind and
//! nullability, in file order. Families of columns are named from the
//! parameter grids of `versions` (`ret_<H>`, `first_cross_up_<T>pct_<H>`,
//! …), so a grid change reshapes the layout by construction.

use vstd::prelude::*;
use crate::text::{chars_of, string_of};
use crate::versions::{
    atr_threshold_labels, atr_thresholds_v2, forward_horizon_labels, forward_horizons_v2, multiday_horizon_labels,
    multiday_horizons_v2, pct_threshold_labels, pct_thresholds_v2, target_stop_pair_labels, target_stop_pairs_v6,
};

verus! {

/// The value kind of a column (the file writer maps it to its storage type).
#[derive(Debug, Clone, Copy, PartialEq, Eq, Structural)]
pub enum ColumnKind {
    Date32,
    Utf8,
    /// Dictionary-encoded text.
    DictUtf8,
    Float64,
    Int32,
    UInt32,
    Boolean,
    /// A list of 1-minute bars (UTC time, open, high, low, close, volume).
    BarList,
    /// An instant in UTC nanoseconds.
    TimestampNsUtc,
}

/// One column of a table layout.
pub struct ColumnSpec {
    pub name: String,
    pub kind: ColumnKind,
    pub nullable: bool,
}

pub open spec fn column_view(c: ColumnSpec) -> (Seq<char>, ColumnKind, bool) {
    (c.name@, c.kind, c.nullable)
}

pub open spec fn column_views(s: Seq<ColumnSpec>) -> Seq<(Seq<char>, ColumnKind, bool)> {
    s.map_values(|c: ColumnSpec| column_view(c))
}

/// A family member's name is `pre + <grid label> + post`.
pub struct Stem {
    pub pre: String,
    pub post: String,
    pub kind: ColumnKind,
    pub nullable: bool,
}

pub open spec fn stem_view(st: Stem) -> (Seq<char>, Seq<char>, ColumnKind, bool) {
    (st.pre@, st.post@, st.kind, st.nullable)
}

/// The columns of one grid label: one per stem, in stem order.
pub open spec fn stem_cols(stems: Seq<(Seq<char>, Seq<char>, ColumnKind, bool)>, label: Seq<char>) -> Seq<(Seq<char>, ColumnKind, bool)> {
    stems.map_values(|st: (Seq<char>, Seq<char>, ColumnKind, bool)| (st.0 + label + st.1, st.2, st.3))
}

/// For each grid label in order, the columns of its stems.
pub open spec fn over(grid: Seq<Seq<char>>, stems: Seq<(Seq<char>, Seq<char>, ColumnKind, bool)>) -> Seq<(Seq<char>, ColumnKind, bool)>
    decreases grid.len(),
{
    if grid.len() == 0 {
        seq![]
    } else {
        over(grid.drop_last(), stems) + stem_cols(stems, grid.last())
    }
}

/// Threshold crossings: for each horizon `h`, for each threshold `t`,
/// `first_cross_up_<t><unit>_<h>` then `first_cross_down_<t><unit>_<h>`.
pub open spec fn cross_cols(hs: Seq<Seq<char>>, ts: Seq<Seq<char>>, unit: Seq<char>) -> Seq<(Seq<char>, ColumnKind, bool)>
    decreases hs.len(),
{
    if hs.len() == 0 {
        seq![]
    } else {
        cross_cols(hs.drop_last(), ts, unit) + over(ts, seq![
            ("first_cross_up_"@, unit + "_"@ + hs.last(), ColumnKind::UInt32, true),
            ("first_cross_down_"@, unit + "_"@ + hs.last(), ColumnKind::UInt32, true),
        ])
    }
}

/// Market-relative returns: for each horizon `h`, `ret_<h>_excess_<idx>`
/// for SPY, QQQ and IWM.
pub open spec fn excess_cols(hs: Seq<Seq<char>>) -> Seq<(Seq<char>, ColumnKind, bool)>
    decreases hs.len(),
{
    if hs.len() == 0 {
        seq![]
    } else {
        excess_cols(hs.drop_last()) + over(seq!["spy"@, "qqq"@, "iwm"@], seq![
            ("ret_"@ + hs.last() + "_excess_"@, ""@, ColumnKind::Float64, true),
        ])
    }
}

pub open spec fn strs(s: Seq<&'static str>) -> Seq<Seq<char>> {
    s.map_values(|x: &'static str| x@)
}

proof fn lemma_over_step(grid: Seq<Seq<char>>, stems: Seq<(Seq<char>, Seq<char>, ColumnKind, bool)>, i: int)
    requires
        0 <= i < grid.len(),
    ensures
        over(grid.take(i + 1), stems) == over(grid.take(i), stems) + stem_cols(stems, grid[i]),
{
    assert(grid.take(i + 1).drop_last() =~= grid.take(i));
}

proof fn lemma_over_len(grid: Seq<Seq<char>>, stems: Seq<(Seq<char>, Seq<char>, ColumnKind, bool)>)
    ensures
        over(grid, stems).len() == grid.len() * stems.len(),
    decreases grid.len(),
{
    if grid.len() > 0 {
        lemma_over_len(grid.drop_last(), stems);
        assert(over(grid, stems).len() == (grid.len() - 1) * stems.len() + stems.len());
        assert((grid.len() - 1) * stems.len() + stems.len() == grid.len() * stems.len()) by (nonlinear_arith);
    }
}

proof fn lemma_cross_len(hs: Seq<Seq<char>>, ts: Seq<Seq<char>>, unit: Seq<char>)
    ensures
        cross_cols(hs, ts, unit).len() == hs.len() * (ts.len() * 2),
    decreases hs.len(),
{
    if hs.len() > 0 {
        lemma_cross_len(hs.drop_last(), ts, unit);
        let st = seq![
            ("first_cross_up_"@, unit + "_"@ + hs.last(), ColumnKind::UInt32, true),
            ("first_cross_down_"@, unit + "_"@ + hs.last(), ColumnKind::UInt32, true),
        ];
        lemma_over_len(ts, st);
        let k = ts.len() * 2;
        assert((hs.len() - 1) * k + k == hs.len() * k) by (nonlinear_arith);
    }
}

proof fn lemma_excess_len(hs: Seq<Seq<char>>)
    ensures
        excess_cols(hs).len() == hs.len() * 3,
    decreases hs.len(),
{
    if hs.len() > 0 {
        lemma_excess_len(hs.drop_last());
        let g = seq!["spy"@, "qqq"@, "iwm"@];
        let st = seq![("ret_"@ + hs.last() + "_excess_"@, ""@, ColumnKind::Float64, true)];
        lemma_over_len(g, st);
        assert(g.len() == 3 && st.len() == 1);
        assert(g.len() * st.len() == 3) by (nonlinear_arith)
            requires
                g.len() == 3,
                st.len() == 1,
        ;
        assert(over(g, st).len() == 3);
        assert(excess_cols(hs) == excess_cols(hs.drop_last()) + over(g, st));
    }
}

fn concat3(a: &str, b: &str, c: &str) -> (r: String)
    ensures
        r@ == a@ + b@ + c@,
{
    let mut cs = chars_of(a);
    let mut bs = chars_of(b);
    let mut ds = chars_of(c);
    cs.append(&mut bs);
    cs.append(&mut ds);
    string_of(&cs)
}

fn copy_str(a: &str) -> (r: String)
    ensures
        r@ == a@,
{
    let cs = chars_of(a);
    string_of(&cs)
}

fn stem(pre: &str, post: &str, kind: ColumnKind, nullable: bool) -> (r: Stem)
    ensures
        stem_view(r) == (pre@, post@, kind, nullable),
{
    Stem { pre: copy_str(pre), post: copy_str(post), kind, nullable }
}

fn push_col(out: &mut Vec<ColumnSpec>, name: String, kind: ColumnKind, nullable: bool)
    ensures
        column_views(final(out)@) == column_views(old(out)@).push((name@, kind, nullable)),
{
    out.push(ColumnSpec { name, kind, nullable });
    assert(column_views(out@) =~= column_views(old(out)@).push((name@, kind, nullable)));
}

/// Appends `over(grid, stems)`.
fn push_over(out: &mut Vec<ColumnSpec>, grid: &Vec<&'static str>, stems: &Vec<Stem>)
    ensures
        column_views(final(out)@) == column_views(old(out)@) + over(strs(grid@), stems@.map_values(|s: Stem| stem_view(s))),
{
    let ghost g = strs(grid@);
    let ghost sv = stems@.map_values(|s: Stem| stem_view(s));
    let ghost start = column_views(out@);
    let mut i: usize = 0;
    assert(g.take(0) =~= Seq::<Seq<char>>::empty());
    assert(start + over(g.take(0), sv) =~= start);
    while i < grid.len()
        invariant
            i <= grid@.len(),
            g == strs(grid@),
            sv == stems@.map_values(|s: Stem| stem_view(s)),
            column_views(out@) == start + over(g.take(i as int), sv),
        decreases grid@.len() - i,
    {
        let label = grid[i];
        let ghost before = column_views(out@);
        let mut j: usize = 0;
        assert(stem_cols(sv.take(0), label@) =~= Seq::<(Seq<char>, ColumnKind, bool)>::empty());
        assert(before + stem_cols(sv.take(0), label@) =~= before);
        while j < stems.len()
            invariant
                j <= stems@.len(),
                sv == stems@.map_values(|s: Stem| stem_view(s)),
                column_views(out@) == before + stem_cols(sv.take(j as int), label@),
            decreases stems@.len() - j,
        {
            let st = &stems[j];
            let name = concat3(st.pre.as_str(), label, st.post.as_str());
            push_col(out, name, st.kind, st.nullable);
            assert(stem_cols(sv.take(j as int + 1), label@) =~= stem_cols(sv.take(j as int), label@).push((st.pre@ + label@ + st.post@, st.kind, st.nullable)));
            j += 1;
        }
        assert(sv.take(stems@.len() as int) =~= sv);
        assert(g[i as int] == label@);
        proof { lemma_over_step(g, sv, i as int); }
        i += 1;
    }
    assert(g.take(grid@.len() as int) =~= g);
}

/// Appends the listed columns.
fn push_plain(out: &mut Vec<ColumnSpec>, cols: &Vec<(&'static str, ColumnKind, bool)>)
    ensures
        column_views(final(out)@) == column_views(old(out)@) + plain(cols@),
{
    let ghost start = column_views(out@);
    let mut i: usize = 0;
    assert(start + plain(cols@.take(0)) =~= start);
    while i < cols.len()
        invariant
            i <= cols@.len(),
            column_views(out@) == start + plain(cols@.take(i as int)),
        decreases cols@.len() - i,
    {
        let (n, k, nl) = cols[i];
        push_col(out, copy_str(n), k, nl);
        assert(plain(cols@.take(i as int + 1)) =~= plain(cols@.take(i as int)).push((n@, k, nl)));
        i += 1;
    }
    assert(cols@.take(cols@.len() as int) =~= cols@);
}

pub open spec fn plain(cols: Seq<(&'static str, ColumnKind, bool)>) -> Seq<(Seq<char>, ColumnKind, bool)> {
    cols.map_values(|c: (&'static str, ColumnKind, bool)| (c.0@, c.1, c.2))
}


pub open spec fn stem_tuples(st: Seq<(&'static str, &'static str, ColumnKind, bool)>) -> Seq<(Seq<char>, Seq<char>, ColumnKind, bool)> {
    st.map_values(|t: (&'static str, &'static str, ColumnKind, bool)| (t.0@, t.1@, t.2, t.3))
}

/// Appends `over(grid, stems)` for stems given as literals.
fn push_family(out: &mut Vec<ColumnSpec>, grid: &Vec<&'static str>, st: &Vec<(&'static str, &'static str, ColumnKind, bool)>)
    ensures
        column_views(final(out)@) == column_views(old(out)@) + over(strs(grid@), stem_tuples(st@)),
{
    let mut stems: Vec<Stem> = Vec::new();
    let mut j: usize = 0;
    while j < st.len()
        invariant
            j <= st@.len(),
            stems@.map_values(|s: Stem| stem_view(s)) == stem_tuples(st@.take(j as int)),
        decreases st@.len() - j,
    {
        let (a, b, k, n) = st[j];
        let ghost old_v = stems@.map_values(|s: Stem| stem_view(s));
        stems.push(stem(a, b, k, n));
        assert(stems@.map_values(|s: Stem| stem_view(s)) =~= old_v.push((a@, b@, k, n)));
        assert(stem_tuples(st@.take(j as int + 1)) =~= stem_tuples(st@.take(j as int)).push((a@, b@, k, n)));
        j += 1;
    }
    assert(st@.take(st@.len() as int) =~= st@);
    push_over(out, grid, &stems);
}

/// Appends the crossing family `cross_cols(horizons, thresholds, unit)`.
fn push_crossings(out: &mut Vec<ColumnSpec>, hs: &Vec<&'static str>, ts: &Vec<&'static str>, unit: &str)
    ensures
        column_views(final(out)@) == column_views(old(out)@) + cross_cols(strs(hs@), strs(ts@), unit@),
{
    let ghost start = column_views(out@);
    let ghost h = strs(hs@);
    let mut i: usize = 0;
    assert(h.take(0) =~= Seq::<Seq<char>>::empty());
    assert(start + cross_cols(h.take(0), strs(ts@), unit@) =~= start);
    while i < hs.len()
        invariant
            i <= hs@.len(),
            h == strs(hs@),
            column_views(out@) == start + cross_cols(h.take(i as int), strs(ts@), unit@),
        decreases hs@.len() - i,
    {
        let post = concat3(unit, "_", hs[i]);
        let stems = vec![stem("first_cross_up_", post.as_str(), ColumnKind::UInt32, true), stem("first_cross_down_", post.as_str(), ColumnKind::UInt32, true)];
        proof { reveal_strlit("_"); reveal_strlit("first_cross_up_"); reveal_strlit("first_cross_down_"); }
        let ghost sv = seq![
            ("first_cross_up_"@, unit@ + "_"@ + h[i as int], ColumnKind::UInt32, true),
            ("first_cross_down_"@, unit@ + "_"@ + h[i as int], ColumnKind::UInt32, true),
        ];
        assert(stems@.map_values(|s: Stem| stem_view(s)) =~= sv);
        push_over(out, ts, &stems);
        assert(h.take(i as int + 1).drop_last() =~= h.take(i as int));
        assert(h.take(i as int + 1).last() == h[i as int]);
        assert(cross_cols(h.take(i as int + 1), strs(ts@), unit@) == cross_cols(h.take(i as int), strs(ts@), unit@) + over(strs(ts@), sv));
        i += 1;
    }
    assert(h.take(hs@.len() as int) =~= h);
}

/// Appends the market-relative family `excess_cols(horizons)`.
fn push_excess(out: &mut Vec<ColumnSpec>, hs: &Vec<&'static str>)
    ensures
        column_views(final(out)@) == column_views(old(out)@) + excess_cols(strs(hs@)),
{
    let ghost start = column_views(out@);
    let ghost h = strs(hs@);
    let idx: Vec<&'static str> = vec!["spy", "qqq", "iwm"];
    assert(strs(idx@) =~= seq!["spy"@, "qqq"@, "iwm"@]);
    let mut i: usize = 0;
    assert(h.take(0) =~= Seq::<Seq<char>>::empty());
    assert(start + excess_cols(h.take(0)) =~= start);
    while i < hs.len()
        invariant
            i <= hs@.len(),
            h == strs(hs@),
            strs(idx@) == seq!["spy"@, "qqq"@, "iwm"@],
            column_views(out@) == start + excess_cols(h.take(i as int)),
        decreases hs@.len() - i,
    {
        let pre = concat3("ret_", hs[i], "_excess_");
        let stems = vec![stem(pre.as_str(), "", ColumnKind::Float64, true)];
        let ghost sv = seq![("ret_"@ + h[i as int] + "_excess_"@, ""@, ColumnKind::Float64, true)];
        assert(stems@.map_values(|s: Stem| stem_view(s)) =~= sv);
        push_over(out, &idx, &stems);
        assert(h.take(i as int + 1).drop_last() =~= h.take(i as int));
        assert(h.take(i as int + 1).last() == h[i as int]);
        assert(excess_cols(h.take(i as int + 1)) == excess_cols(h.take(i as int)) + over(seq!["spy"@, "qqq"@, "iwm"@], sv));
        i += 1;
    }
    assert(h.take(hs@.len() as int) =~= h);
}


/// Identity, entry pricing, pre-entry and entry-quality columns.
pub open spec fn forward_outcomes_head() -> Seq<(Seq<char>, ColumnKind, bool)> {
    seq![
        ("day"@, ColumnKind::Date32, false),
        ("security_id"@, ColumnKind::Utf8, false),
        ("entry_offset"@, ColumnKind::DictUtf8, false),
        ("entry_price"@, ColumnKind::Float64, true),
        ("entry_unadjusted_price"@, ColumnKind::Float64, true),
        ("pre_entry_ret_from_open"@, ColumnKind::Float64, true),
        ("pre_entry_volume_from_open"@, ColumnKind::Float64, true),
        ("pre_entry_dollar_volume_from_open"@, ColumnKind::Float64, true),
        ("pre_entry_vwap_from_open"@, ColumnKind::Float64, true),
        ("pre_entry_high_return_so_far"@, ColumnKind::Float64, true),
        ("pre_entry_low_return_so_far"@, ColumnKind::Float64, true),
        ("pre_entry_minutes_since_high"@, ColumnKind::Int32, true),
        ("pre_entry_minutes_since_low"@, ColumnKind::Int32, true),
        ("pre_entry_ret_from_high"@, ColumnKind::Float64, true),
        ("pre_entry_ret_from_low"@, ColumnKind::Float64, true),
        ("pre_entry_ret_rank_today"@, ColumnKind::Int32, true),
        ("pre_entry_ret_percentile_today"@, ColumnKind::Float64, true),
        ("pre_entry_dollar_volume_rank_today"@, ColumnKind::Int32, true),
        ("entry_price_location_in_1m_bar"@, ColumnKind::Float64, true),
        ("entry_open_to_close_1m_return"@, ColumnKind::Float64, true),
        ("entry_bar_upper_wick_pct"@, ColumnKind::Float64, true),
        ("entry_bar_lower_wick_pct"@, ColumnKind::Float64, true),
        ("entry_slippage_proxy_bps"@, ColumnKind::Float64, true),
        ("entry_participation_capacity_1pct_adv"@, ColumnKind::Float64, true),
        ("entry_participation_capacity_5pct_1m_volume"@, ColumnKind::Float64, true),
        ("entry_1m_volume"@, ColumnKind::Float64, true),
        ("entry_1m_range"@, ColumnKind::Float64, true),
        ("entry_1m_dollar_volume"@, ColumnKind::Float64, true),
        ("entry_range_vs_atr_14d"@, ColumnKind::Float64, true),
        ("entry_range_vs_yz_vol_14d"@, ColumnKind::Float64, true),
        ("entry_dollar_volume_vs_addv_20d"@, ColumnKind::Float64, true),
        ("is_halted_at_entry"@, ColumnKind::Boolean, true),
    ]
}

pub open spec fn horizon_stat_stems() -> Seq<(Seq<char>, Seq<char>, ColumnKind, bool)> {
    seq![("ret_"@, ""@, ColumnKind::Float64, true), ("max_drawdown_"@, ""@, ColumnKind::Float64, true), ("max_runup_"@, ""@, ColumnKind::Float64, true), ("close_max_ret_"@, ""@, ColumnKind::Float64, true), ("close_min_ret_"@, ""@, ColumnKind::Float64, true), ("bars_to_max_drawdown_"@, ""@, ColumnKind::UInt32, true), ("bars_to_max_runup_"@, ""@, ColumnKind::UInt32, true), ("bars_to_close_min_"@, ""@, ColumnKind::UInt32, true), ("bars_to_close_max_"@, ""@, ColumnKind::UInt32, true)]
}

pub open spec fn underwater_stems() -> Seq<(Seq<char>, Seq<char>, ColumnKind, bool)> {
    seq![("pct_bars_profitable_"@, ""@, ColumnKind::Float64, true), ("pct_bars_underwater_"@, ""@, ColumnKind::Float64, true), ("max_consecutive_bars_profitable_"@, ""@, ColumnKind::UInt32, true), ("max_consecutive_bars_underwater_"@, ""@, ColumnKind::UInt32, true), ("time_to_recover_after_first_drawdown_"@, ""@, ColumnKind::UInt32, true)]
}

pub open spec fn gap_stems() -> Seq<(Seq<char>, Seq<char>, ColumnKind, bool)> {
    seq![("gap_return_day_"@, ""@, ColumnKind::Float64, true), ("rth_return_day_"@, ""@, ColumnKind::Float64, true), ("close_to_close_return_day_"@, ""@, ColumnKind::Float64, true), ("open_to_close_return_day_"@, ""@, ColumnKind::Float64, true)]
}

pub open spec fn session_shape_cols() -> Seq<(Seq<char>, ColumnKind, bool)> {
    seq![
        ("post_entry_morning_high_return"@, ColumnKind::Float64, true),
        ("post_entry_morning_low_return"@, ColumnKind::Float64, true),
        ("post_entry_midday_high_return"@, ColumnKind::Float64, true),
        ("post_entry_midday_low_return"@, ColumnKind::Float64, true),
        ("post_entry_afternoon_high_return"@, ColumnKind::Float64, true),
        ("post_entry_afternoon_low_return"@, ColumnKind::Float64, true),
        ("post_entry_power_hour_return"@, ColumnKind::Float64, true),
        ("post_entry_close_vs_high_return"@, ColumnKind::Float64, true),
        ("post_entry_close_vs_low_return"@, ColumnKind::Float64, true),
    ]
}

pub open spec fn next_day_cols() -> Seq<(Seq<char>, ColumnKind, bool)> {
    seq![
        ("next_day_open_return"@, ColumnKind::Float64, true),
        ("next_day_gap_return"@, ColumnKind::Float64, true),
        ("next_day_first_5m_return"@, ColumnKind::Float64, true),
        ("next_day_first_15m_return"@, ColumnKind::Float64, true),
        ("next_day_first_30m_return"@, ColumnKind::Float64, true),
        ("next_day_high_return"@, ColumnKind::Float64, true),
        ("next_day_low_return"@, ColumnKind::Float64, true),
        ("next_day_close_return"@, ColumnKind::Float64, true),
        ("next_day_close_location_in_range"@, ColumnKind::Float64, true),
        ("next_day_fade_from_open"@, ColumnKind::Float64, true),
        ("next_day_continuation_from_open"@, ColumnKind::Float64, true),
    ]
}

pub open spec fn forward_outcomes_tail() -> Seq<(Seq<char>, ColumnKind, bool)> {
    seq![
        ("cumulative_volume_to_entry"@, ColumnKind::Float64, true),
        ("cumulative_dollar_volume_to_entry"@, ColumnKind::Float64, true),
        ("terminal_event_type"@, ColumnKind::DictUtf8, true),
        ("terminal_event_date"@, ColumnKind::Date32, true),
        ("terminal_event_return"@, ColumnKind::Float64, true),
        ("terminal_event_confidence"@, ColumnKind::DictUtf8, true),
        ("last_valid_trade_date"@, ColumnKind::Date32, true),
        ("days_with_missing_forward_bars"@, ColumnKind::Int32, true),
    ]
}

/// The `forward_outcomes` layout, in file order: the head columns; per
/// horizon the path statistics; the fixed-% then ATR threshold crossings;
/// the market-relative returns; the day-0 segment returns and session
/// shape; time underwater for the short multi-bar horizons; the next-day
/// and gap-versus-session returns; per target/stop pair its `hit_` flag,
/// then its `first_event_`; the dividend-adjusted totals and ex-date flags
/// of the multi-day horizons; the largest bar gap per horizon; cumulative
/// volume to entry and the terminal-event columns.
pub open spec fn spec_forward_outcomes_columns() -> Seq<(Seq<char>, ColumnKind, bool)> {
    forward_outcomes_head()
        + over(forward_horizon_labels(), horizon_stat_stems())
        + cross_cols(forward_horizon_labels(), pct_threshold_labels(), "pct"@)
        + cross_cols(forward_horizon_labels(), atr_threshold_labels(), "atr"@)
        + excess_cols(forward_horizon_labels())
        + over(seq!["1030"@, "1100"@, "1130"@, "1200"@, "1300"@, "1400"@, "1500"@, "1530"@, "close"@], seq![("ret_to_"@, ""@, ColumnKind::Float64, true)])
        + session_shape_cols()
        + over(seq!["EOD"@, "1d"@, "2d"@, "3d"@, "5d"@], underwater_stems())
        + next_day_cols()
        + over(seq!["1"@, "2"@, "3"@, "4"@, "5"@], gap_stems())
        + over(target_stop_pair_labels(), seq![("hit_"@, ""@, ColumnKind::Boolean, true)])
        + over(target_stop_pair_labels(), seq![("first_event_"@, ""@, ColumnKind::DictUtf8, true)])
        + over(multiday_horizon_labels(), seq![("ret_"@, "_total"@, ColumnKind::Float64, true)])
        + over(multiday_horizon_labels(), seq![("dividend_ex_date_within_"@, ""@, ColumnKind::Boolean, true)])
        + over(forward_horizon_labels(), seq![("bar_gap_minutes_max_"@, ""@, ColumnKind::Int32, true)])
        + forward_outcomes_tail()
}

/// The `forward_outcomes` columns (657 of them).
pub fn forward_outcomes_columns() -> (r: Vec<ColumnSpec>)
    ensures
        column_views(r@) == spec_forward_outcomes_columns(),
        r@.len() == 657,
{
    let hs = forward_horizons_v2();
    let ps = pct_thresholds_v2();
    let ats = atr_thresholds_v2();
    let pairs = target_stop_pairs_v6();
    let md = multiday_horizons_v2();
    let mut out: Vec<ColumnSpec> = Vec::new();
    let ghost mut want: Seq<(Seq<char>, ColumnKind, bool)> = Seq::empty();
    assert(column_views(out@) =~= want);

    let cols = vec![
        ("day", ColumnKind::Date32, false),
        ("security_id", ColumnKind::Utf8, false),
        ("entry_offset", ColumnKind::DictUtf8, false),
        ("entry_price", ColumnKind::Float64, true),
        ("entry_unadjusted_price", ColumnKind::Float64, true),
        ("pre_entry_ret_from_open", ColumnKind::Float64, true),
        ("pre_entry_volume_from_open", ColumnKind::Float64, true),
        ("pre_entry_dollar_volume_from_open", ColumnKind::Float64, true),
        ("pre_entry_vwap_from_open", ColumnKind::Float64, true),
        ("pre_entry_high_return_so_far", ColumnKind::Float64, true),
        ("pre_entry_low_return_so_far", ColumnKind::Float64, true),
        ("pre_entry_minutes_since_high", ColumnKind::Int32, true),
        ("pre_entry_minutes_since_low", ColumnKind::Int32, true),
        ("pre_entry_ret_from_high", ColumnKind::Float64, true),
        ("pre_entry_ret_from_low", ColumnKind::Float64, true),
        ("pre_entry_ret_rank_today", ColumnKind::Int32, true),
        ("pre_entry_ret_percentile_today", ColumnKind::Float64, true),
        ("pre_entry_dollar_volume_rank_today", ColumnKind::Int32, true),
        ("entry_price_location_in_1m_bar", ColumnKind::Float64, true),
        ("entry_open_to_close_1m_return", ColumnKind::Float64, true),
        ("entry_bar_upper_wick_pct", ColumnKind::Float64, true),
        ("entry_bar_lower_wick_pct", ColumnKind::Float64, true),
        ("entry_slippage_proxy_bps", ColumnKind::Float64, true),
        ("entry_participation_capacity_1pct_adv", ColumnKind::Float64, true),
        ("entry_participation_capacity_5pct_1m_volume", ColumnKind::Float64, true),
        ("entry_1m_volume", ColumnKind::Float64, true),
        ("entry_1m_range", ColumnKind::Float64, true),
        ("entry_1m_dollar_volume", ColumnKind::Float64, true),
        ("entry_range_vs_atr_14d", ColumnKind::Float64, true),
        ("entry_range_vs_yz_vol_14d", ColumnKind::Float64, true),
        ("entry_dollar_volume_vs_addv_20d", ColumnKind::Float64, true),
        ("is_halted_at_entry", ColumnKind::Boolean, true),
    ];
    assert(plain(cols@) =~= forward_outcomes_head());
    push_plain(&mut out, &cols);
    proof { want = want + forward_outcomes_head(); }

    let st = vec![("ret_", "", ColumnKind::Float64, true), ("max_drawdown_", "", ColumnKind::Float64, true), ("max_runup_", "", ColumnKind::Float64, true), ("close_max_ret_", "", ColumnKind::Float64, true), ("close_min_ret_", "", ColumnKind::Float64, true), ("bars_to_max_drawdown_", "", ColumnKind::UInt32, true), ("bars_to_max_runup_", "", ColumnKind::UInt32, true), ("bars_to_close_min_", "", ColumnKind::UInt32, true), ("bars_to_close_max_", "", ColumnKind::UInt32, true)];
    assert(stem_tuples(st@) =~= horizon_stat_stems());
    push_family(&mut out, &hs, &st);
    proof { want = want + over(forward_horizon_labels(), horizon_stat_stems()); }
    assert(column_views(out@) =~= want);

    push_crossings(&mut out, &hs, &ps, "pct");
    proof { reveal_strlit("pct"); want = want + cross_cols(forward_horizon_labels(), pct_threshold_labels(), "pct"@); }
    assert(column_views(out@) =~= want);
    push_crossings(&mut out, &hs, &ats, "atr");
    proof { reveal_strlit("atr"); want = want + cross_cols(forward_horizon_labels(), atr_threshold_labels(), "atr"@); }
    assert(column_views(out@) =~= want);
    push_excess(&mut out, &hs);
    proof { want = want + excess_cols(forward_horizon_labels()); }
    assert(column_views(out@) =~= want);

    let g = vec!["1030", "1100", "1130", "1200", "1300", "1400", "1500", "1530", "close"];
    let st = vec![("ret_to_", "", ColumnKind::Float64, true)];
    assert(strs(g@) =~= seq!["1030"@, "1100"@, "1130"@, "1200"@, "1300"@, "1400"@, "1500"@, "1530"@, "close"@]);
    assert(stem_tuples(st@) =~= seq![("ret_to_"@, ""@, ColumnKind::Float64, true)]);
    push_family(&mut out, &g, &st);
    proof { want = want + over(seq!["1030"@, "1100"@, "1130"@, "1200"@, "1300"@, "1400"@, "1500"@, "1530"@, "close"@], seq![("ret_to_"@, ""@, ColumnKind::Float64, true)]); }
    assert(column_views(out@) =~= want);

    let cols = vec![
        ("post_entry_morning_high_return", ColumnKind::Float64, true),
        ("post_entry_morning_low_return", ColumnKind::Float64, true),
        ("post_entry_midday_high_return", ColumnKind::Float64, true),
        ("post_entry_midday_low_return", ColumnKind::Float64, true),
        ("post_entry_afternoon_high_return", ColumnKind::Float64, true),
        ("post_entry_afternoon_low_return", ColumnKind::Float64, true),
        ("post_entry_power_hour_return", ColumnKind::Float64, true),
        ("post_entry_close_vs_high_return", ColumnKind::Float64, true),
        ("post_entry_close_vs_low_return", ColumnKind::Float64, true),
    ];
    assert(plain(cols@) =~= session_shape_cols());
    push_plain(&mut out, &cols);
    proof { want = want + session_shape_cols(); }

    let g = vec!["EOD", "1d", "2d", "3d", "5d"];
    let st = vec![("pct_bars_profitable_", "", ColumnKind::Float64, true), ("pct_bars_underwater_", "", ColumnKind::Float64, true), ("max_consecutive_bars_profitable_", "", ColumnKind::UInt32, true), ("max_consecutive_bars_underwater_", "", ColumnKind::UInt32, true), ("time_to_recover_after_first_drawdown_", "", ColumnKind::UInt32, true)];
    assert(strs(g@) =~= seq!["EOD"@, "1d"@, "2d"@, "3d"@, "5d"@]);
    assert(stem_tuples(st@) =~= underwater_stems());
    push_family(&mut out, &g, &st);
    proof { want = want + over(seq!["EOD"@, "1d"@, "2d"@, "3d"@, "5d"@], underwater_stems()); }
    assert(column_views(out@) =~= want);

    let cols = vec![
        ("next_day_open_return", ColumnKind::Float64, true),
        ("next_day_gap_return", ColumnKind::Float64, true),
        ("next_day_first_5m_return", ColumnKind::Float64, true),
        ("next_day_first_15m_return", ColumnKind::Float64, true),
        ("next_day_first_30m_return", ColumnKind::Float64, true),
        ("next_day_high_return", ColumnKind::Float64, true),
        ("next_day_low_return", ColumnKind::Float64, true),
        ("next_day_close_return", ColumnKind::Float64, true),
        ("next_day_close_location_in_range", ColumnKind::Float64, true),
        ("next_day_fade_from_open", ColumnKind::Float64, true),
        ("next_day_continuation_from_open", ColumnKind::Float64, true),
    ];
    assert(plain(cols@) =~= next_day_cols());
    push_plain(&mut out, &cols);
    proof { want = want + next_day_cols(); }

    let g = vec!["1", "2", "3", "4", "5"];
    let st = vec![("gap_return_day_", "", ColumnKind::Float64, true), ("rth_return_day_", "", ColumnKind::Float64, true), ("close_to_close_return_day_", "", ColumnKind::Float64, true), ("open_to_close_return_day_", "", ColumnKind::Float64, true)];
    assert(strs(g@) =~= seq!["1"@, "2"@, "3"@, "4"@, "5"@]);
    assert(stem_tuples(st@) =~= gap_stems());
    push_family(&mut out, &g, &st);
    proof { want = want + over(seq!["1"@, "2"@, "3"@, "4"@, "5"@], gap_stems()); }
    assert(column_views(out@) =~= want);

    let st = vec![("hit_", "", ColumnKind::Boolean, true)];
    assert(stem_tuples(st@) =~= seq![("hit_"@, ""@, ColumnKind::Boolean, true)]);
    push_family(&mut out, &pairs, &st);
    let st = vec![("first_event_", "", ColumnKind::DictUtf8, true)];
    assert(stem_tuples(st@) =~= seq![("first_event_"@, ""@, ColumnKind::DictUtf8, true)]);
    push_family(&mut out, &pairs, &st);
    let st = vec![("ret_", "_total", ColumnKind::Float64, true)];
    assert(stem_tuples(st@) =~= seq![("ret_"@, "_total"@, ColumnKind::Float64, true)]);
    push_family(&mut out, &md, &st);
    let st = vec![("dividend_ex_date_within_", "", ColumnKind::Boolean, true)];
    assert(stem_tuples(st@) =~= seq![("dividend_ex_date_within_"@, ""@, ColumnKind::Boolean, true)]);
    push_family(&mut out, &md, &st);
    let st = vec![("bar_gap_minutes_max_", "", ColumnKind::Int32, true)];
    assert(stem_tuples(st@) =~= seq![("bar_gap_minutes_max_"@, ""@, ColumnKind::Int32, true)]);
    push_family(&mut out, &hs, &st);
    proof {
        want = want
            + over(target_stop_pair_labels(), seq![("hit_"@, ""@, ColumnKind::Boolean, true)])
            + over(target_stop_pair_labels(), seq![("first_event_"@, ""@, ColumnKind::DictUtf8, true)])
            + over(multiday_horizon_labels(), seq![("ret_"@, "_total"@, ColumnKind::Float64, true)])
            + over(multiday_horizon_labels(), seq![("dividend_ex_date_within_"@, ""@, ColumnKind::Boolean, true)])
            + over(forward_horizon_labels(), seq![("bar_gap_minutes_max_"@, ""@, ColumnKind::Int32, true)]);
    }
    assert(column_views(out@) =~= want);

    let cols = vec![
        ("cumulative_volume_to_entry", ColumnKind::Float64, true),
        ("cumulative_dollar_volume_to_entry", ColumnKind::Float64, true),
        ("terminal_event_type", ColumnKind::DictUtf8, true),
        ("terminal_event_date", ColumnKind::Date32, true),
        ("terminal_event_return", ColumnKind::Float64, true),
        ("terminal_event_confidence", ColumnKind::DictUtf8, true),
        ("last_valid_trade_date", ColumnKind::Date32, true),
        ("days_with_missing_forward_bars", ColumnKind::Int32, true),
    ];
    assert(plain(cols@) =~= forward_outcomes_tail());
    push_plain(&mut out, &cols);
    proof { want = want + forward_outcomes_tail(); }
    assert(want =~= spec_forward_outcomes_columns());
    proof { lemma_forward_outcomes_len(); }
    out
}

proof fn lemma_forward_outcomes_len()
    ensures
        spec_forward_outcomes_columns().len() == 657,
{
    let h = forward_horizon_labels();
    lemma_over_len(h, horizon_stat_stems());
    lemma_cross_len(h, pct_threshold_labels(), "pct"@);
    lemma_cross_len(h, atr_threshold_labels(), "atr"@);
    lemma_excess_len(h);
    lemma_over_len(seq!["1030"@, "1100"@, "1130"@, "1200"@, "1300"@, "1400"@, "1500"@, "1530"@, "close"@], seq![("ret_to_"@, ""@, ColumnKind::Float64, true)]);
    lemma_over_len(seq!["EOD"@, "1d"@, "2d"@, "3d"@, "5d"@], underwater_stems());
    lemma_over_len(seq!["1"@, "2"@, "3"@, "4"@, "5"@], gap_stems());
    lemma_over_len(target_stop_pair_labels(), seq![("hit_"@, ""@, ColumnKind::Boolean, true)]);
    lemma_over_len(target_stop_pair_labels(), seq![("first_event_"@, ""@, ColumnKind::DictUtf8, true)]);
    lemma_over_len(multiday_horizon_labels(), seq![("ret_"@, "_total"@, ColumnKind::Float64, true)]);
    lemma_over_len(multiday_horizon_labels(), seq![("dividend_ex_date_within_"@, ""@, ColumnKind::Boolean, true)]);
    lemma_over_len(h, seq![("bar_gap_minutes_max_"@, ""@, ColumnKind::Int32, true)]);
    assert(h.len() == 13);
    assert(pct_threshold_labels().len() == 7);
    assert(atr_threshold_labels().len() == 6);
    assert(target_stop_pair_labels().len() == 9);
    assert(multiday_horizon_labels().len() == 9);
    assert(horizon_stat_stems().len() == 9);
    assert(underwater_stems().len() == 5);
    assert(gap_stems().len() == 4);
    assert(forward_outcomes_head().len() == 32);
    assert(session_shape_cols().len() == 9);
    assert(next_day_cols().len() == 11);
    assert(forward_outcomes_tail().len() == 8);
    assert(13 * 9 == 117 && 13 * (7 * 2) == 182 && 13 * (6 * 2) == 156 && 13 * 3 == 39 && 9 * 1 == 9
        && 5 * 5 == 25 && 5 * 4 == 20 && 13 * 1 == 13) by (nonlinear_arith);
}


/// The `daily_observation` layout, in file order: identity, the two bar
/// lists, signal snapshots, first-30-minute and first-hour shape, ranks,
/// day aggregates, premarket, overnight, rolling volatility, liquidity and
/// betas, earnings proximity, data quality, the freshness and range
/// columns, and the calendar fields.
pub open spec fn spec_daily_observation_columns() -> Seq<(Seq<char>, ColumnKind, bool)> {
    seq![
        ("day"@, ColumnKind::Date32, false),
        ("security_id"@, ColumnKind::Utf8, false),
        ("display_symbol_on_day"@, ColumnKind::Utf8, false),
        ("intraday_1m_first_hour"@, ColumnKind::BarList, false),
        ("intraday_10m_rest"@, ColumnKind::BarList, false),
        ("intraday_ret_0930_to_0940"@, ColumnKind::Float64, true),
        ("intraday_ret_0930_to_0950"@, ColumnKind::Float64, true),
        ("intraday_ret_0930_to_1000"@, ColumnKind::Float64, true),
        ("intraday_ret_0930_to_1010"@, ColumnKind::Float64, true),
        ("intraday_ret_0930_to_1030"@, ColumnKind::Float64, true),
        ("intraday_volume_0930_to_1000"@, ColumnKind::Float64, true),
        ("intraday_dollar_volume_0930_to_1000"@, ColumnKind::Float64, true),
        ("intraday_vwap_0930_to_1000"@, ColumnKind::Float64, true),
        ("intraday_first_30m_high_return"@, ColumnKind::Float64, true),
        ("intraday_first_30m_low_return"@, ColumnKind::Float64, true),
        ("intraday_time_of_first_30m_high"@, ColumnKind::Utf8, true),
        ("intraday_time_of_first_30m_low"@, ColumnKind::Utf8, true),
        ("intraday_ret_from_first_30m_high_to_1000"@, ColumnKind::Float64, true),
        ("intraday_minutes_since_first_30m_high_at_1000"@, ColumnKind::Int32, true),
        ("intraday_first_15m_volume_share_of_first_30m"@, ColumnKind::Float64, true),
        ("intraday_first_hour_high_return"@, ColumnKind::Float64, true),
        ("intraday_first_hour_low_return"@, ColumnKind::Float64, true),
        ("intraday_time_of_first_hour_high"@, ColumnKind::Utf8, true),
        ("intraday_ret_from_first_hour_high_to_1030"@, ColumnKind::Float64, true),
        ("intraday_first_30m_volume_share_of_first_hour"@, ColumnKind::Float64, true),
        ("intraday_ret_0930_to_1000_rank_today"@, ColumnKind::Int32, true),
        ("intraday_ret_0930_to_1000_percentile_today"@, ColumnKind::Float64, true),
        ("intraday_dollar_volume_0930_to_1000_rank_today"@, ColumnKind::Int32, true),
        ("premarket_volume_rank_today"@, ColumnKind::Int32, true),
        ("premarket_dollar_volume_rank_today"@, ColumnKind::Int32, true),
        ("overnight_gap_rank_today"@, ColumnKind::Int32, true),
        ("addv_20d_rank_today"@, ColumnKind::Int32, true),
        ("realized_vol_21d_rank_today"@, ColumnKind::Int32, true),
        ("eod_day_open"@, ColumnKind::Float64, true),
        ("eod_day_high"@, ColumnKind::Float64, true),
        ("eod_day_low"@, ColumnKind::Float64, true),
        ("eod_day_close"@, ColumnKind::Float64, true),
        ("eod_day_volume"@, ColumnKind::Float64, true),
        ("eod_day_dollar_volume"@, ColumnKind::Float64, true),
        ("eod_day_vwap"@, ColumnKind::Float64, true),
        ("eod_unadjusted_day_open"@, ColumnKind::Float64, true),
        ("eod_unadjusted_day_high"@, ColumnKind::Float64, true),
        ("eod_unadjusted_day_low"@, ColumnKind::Float64, true),
        ("eod_unadjusted_day_close"@, ColumnKind::Float64, true),
        ("premarket_volume"@, ColumnKind::Float64, true),
        ("premarket_high"@, ColumnKind::Float64, true),
        ("premarket_low"@, ColumnKind::Float64, true),
        ("premarket_vwap"@, ColumnKind::Float64, true),
        ("premarket_dollar_volume"@, ColumnKind::Float64, true),
        ("prior_day_eod_close"@, ColumnKind::Float64, true),
        ("prior_day_unadjusted_eod_close"@, ColumnKind::Float64, true),
        ("overnight_gap"@, ColumnKind::Float64, true),
        ("prior_day_last_30m_return"@, ColumnKind::Float64, true),
        ("prior_day_last_30m_volume_share"@, ColumnKind::Float64, true),
        ("atr_5d"@, ColumnKind::Float64, true),
        ("atr_14d"@, ColumnKind::Float64, true),
        ("atr_42d"@, ColumnKind::Float64, true),
        ("realized_vol_21d"@, ColumnKind::Float64, true),
        ("yang_zhang_vol_5d"@, ColumnKind::Float64, true),
        ("yang_zhang_vol_14d"@, ColumnKind::Float64, true),
        ("yang_zhang_vol_21d"@, ColumnKind::Float64, true),
        ("yang_zhang_vol_42d"@, ColumnKind::Float64, true),
        ("adv_5d"@, ColumnKind::Float64, true),
        ("adv_20d"@, ColumnKind::Float64, true),
        ("adv_60d"@, ColumnKind::Float64, true),
        ("addv_5d"@, ColumnKind::Float64, true),
        ("addv_20d"@, ColumnKind::Float64, true),
        ("addv_60d"@, ColumnKind::Float64, true),
        ("beta_spy_60d"@, ColumnKind::Float64, true),
        ("beta_qqq_60d"@, ColumnKind::Float64, true),
        ("beta_iwm_60d"@, ColumnKind::Float64, true),
        ("days_to_next_known_earnings"@, ColumnKind::Int32, true),
        ("days_since_last_earnings"@, ColumnKind::Int32, true),
        ("is_earnings_day"@, ColumnKind::Boolean, true),
        ("earnings_report_timing"@, ColumnKind::DictUtf8, true),
        ("bar_count_rth"@, ColumnKind::Int32, true),
        ("bar_count_first_hour"@, ColumnKind::Int32, true),
        ("bar_count_first_30m"@, ColumnKind::Int32, true),
        ("bar_count_premarket"@, ColumnKind::Int32, true),
        ("missing_1m_bars_first_30m"@, ColumnKind::Int32, true),
        ("missing_1m_bars_first_hour"@, ColumnKind::Int32, true),
        ("zero_volume_1m_bars_first_30m"@, ColumnKind::Int32, true),
        ("first_rth_bar_time"@, ColumnKind::Utf8, true),
        ("minutes_after_open_first_bar"@, ColumnKind::Int32, true),
        ("has_bad_ohlc"@, ColumnKind::Boolean, true),
        ("split_event_nearby"@, ColumnKind::Boolean, true),
        ("dividend_event_today"@, ColumnKind::Boolean, true),
        ("ticker_event_today"@, ColumnKind::Boolean, true),
        ("adjustment_factor_on_day"@, ColumnKind::Float64, true),
        ("signal_first_in_5d"@, ColumnKind::Boolean, true),
        ("signal_first_in_10d"@, ColumnKind::Boolean, true),
        ("signal_first_in_20d"@, ColumnKind::Boolean, true),
        ("signal_concentration_percentile_today"@, ColumnKind::Float64, true),
        ("signal_concentration_hhi_today"@, ColumnKind::Float64, true),
        ("premarket_volume_vs_20d_median"@, ColumnKind::Float64, true),
        ("pre_market_volume_spike_flag"@, ColumnKind::Boolean, true),
        ("high_52w"@, ColumnKind::Float64, true),
        ("low_52w"@, ColumnKind::Float64, true),
        ("days_since_last_5pct_move"@, ColumnKind::Int32, true),
        ("days_since_last_10pct_move"@, ColumnKind::Int32, true),
        ("days_since_last_20pct_move"@, ColumnKind::Int32, true),
        ("consecutive_up_days_close_to_close"@, ColumnKind::Int32, true),
        ("gap_filled_today_flag"@, ColumnKind::Boolean, true),
        ("day_of_week"@, ColumnKind::Int32, false),
        ("days_since_first_bar"@, ColumnKind::Int32, false),
        ("is_half_day"@, ColumnKind::Boolean, false),
    ]
}

/// The `daily_observation` columns (106 of them).
pub fn daily_observation_columns() -> (r: Vec<ColumnSpec>)
    ensures
        column_views(r@) == spec_daily_observation_columns(),
        r@.len() == 106,
{
    let cols = vec![
        ("day", ColumnKind::Date32, false),
        ("security_id", ColumnKind::Utf8, false),
        ("display_symbol_on_day", ColumnKind::Utf8, false),
        ("intraday_1m_first_hour", ColumnKind::BarList, false),
        ("intraday_10m_rest", ColumnKind::BarList, false),
        ("intraday_ret_0930_to_0940", ColumnKind::Float64, true),
        ("intraday_ret_0930_to_0950", ColumnKind::Float64, true),
        ("intraday_ret_0930_to_1000", ColumnKind::Float64, true),
        ("intraday_ret_0930_to_1010", ColumnKind::Float64, true),
        ("intraday_ret_0930_to_1030", ColumnKind::Float64, true),
        ("intraday_volume_0930_to_1000", ColumnKind::Float64, true),
        ("intraday_dollar_volume_0930_to_1000", ColumnKind::Float64, true),
        ("intraday_vwap_0930_to_1000", ColumnKind::Float64, true),
        ("intraday_first_30m_high_return", ColumnKind::Float64, true),
        ("intraday_first_30m_low_return", ColumnKind::Float64, true),
        ("intraday_time_of_first_30m_high", ColumnKind::Utf8, true),
        ("intraday_time_of_first_30m_low", ColumnKind::Utf8, true),
        ("intraday_ret_from_first_30m_high_to_1000", ColumnKind::Float64, true),
        ("intraday_minutes_since_first_30m_high_at_1000", ColumnKind::Int32, true),
        ("intraday_first_15m_volume_share_of_first_30m", ColumnKind::Float64, true),
        ("intraday_first_hour_high_return", ColumnKind::Float64, true),
        ("intraday_first_hour_low_return", ColumnKind::Float64, true),
        ("intraday_time_of_first_hour_high", ColumnKind::Utf8, true),
        ("intraday_ret_from_first_hour_high_to_1030", ColumnKind::Float64, true),
        ("intraday_first_30m_volume_share_of_first_hour", ColumnKind::Float64, true),
        ("intraday_ret_0930_to_1000_rank_today", ColumnKind::Int32, true),
        ("intraday_ret_0930_to_1000_percentile_today", ColumnKind::Float64, true),
        ("intraday_dollar_volume_0930_to_1000_rank_today", ColumnKind::Int32, true),
        ("premarket_volume_rank_today", ColumnKind::Int32, true),
        ("premarket_dollar_volume_rank_today", ColumnKind::Int32, true),
        ("overnight_gap_rank_today", ColumnKind::Int32, true),
        ("addv_20d_rank_today", ColumnKind::Int32, true),
        ("realized_vol_21d_rank_today", ColumnKind::Int32, true),
        ("eod_day_open", ColumnKind::Float64, true),
        ("eod_day_high", ColumnKind::Float64, true),
        ("eod_day_low", ColumnKind::Float64, true),
        ("eod_day_close", ColumnKind::Float64, true),
        ("eod_day_volume", ColumnKind::Float64, true),
        ("eod_day_dollar_volume", ColumnKind::Float64, true),
        ("eod_day_vwap", ColumnKind::Float64, true),
        ("eod_unadjusted_day_open", ColumnKind::Float64, true),
        ("eod_unadjusted_day_high", ColumnKind::Float64, true),
        ("eod_unadjusted_day_low", ColumnKind::Float64, true),
        ("eod_unadjusted_day_close", ColumnKind::Float64, true),
        ("premarket_volume", ColumnKind::Float64, true),
        ("premarket_high", ColumnKind::Float64, true),
        ("premarket_low", ColumnKind::Float64, true),
        ("premarket_vwap", ColumnKind::Float64, true),
        ("premarket_dollar_volume", ColumnKind::Float64, true),
        ("prior_day_eod_close", ColumnKind::Float64, true),
        ("prior_day_unadjusted_eod_close", ColumnKind::Float64, true),
        ("overnight_gap", ColumnKind::Float64, true),
        ("prior_day_last_30m_return", ColumnKind::Float64, true),
        ("prior_day_last_30m_volume_share", ColumnKind::Float64, true),
        ("atr_5d", ColumnKind::Float64, true),
        ("atr_14d", ColumnKind::Float64, true),
        ("atr_42d", ColumnKind::Float64, true),
        ("realized_vol_21d", ColumnKind::Float64, true),
        ("yang_zhang_vol_5d", ColumnKind::Float64, true),
        ("yang_zhang_vol_14d", ColumnKind::Float64, true),
        ("yang_zhang_vol_21d", ColumnKind::Float64, true),
        ("yang_zhang_vol_42d", ColumnKind::Float64, true),
        ("adv_5d", ColumnKind::Float64, true),
        ("adv_20d", ColumnKind::Float64, true),
        ("adv_60d", ColumnKind::Float64, true),
        ("addv_5d", ColumnKind::Float64, true),
        ("addv_20d", ColumnKind::Float64, true),
        ("addv_60d", ColumnKind::Float64, true),
        ("beta_spy_60d", ColumnKind::Float64, true),
        ("beta_qqq_60d", ColumnKind::Float64, true),
        ("beta_iwm_60d", ColumnKind::Float64, true),
        ("days_to_next_known_earnings", ColumnKind::Int32, true),
        ("days_since_last_earnings", ColumnKind::Int32, true),
        ("is_earnings_day", ColumnKind::Boolean, true),
        ("earnings_report_timing", ColumnKind::DictUtf8, true),
        ("bar_count_rth", ColumnKind::Int32, true),
        ("bar_count_first_hour", ColumnKind::Int32, true),
        ("bar_count_first_30m", ColumnKind::Int32, true),
        ("bar_count_premarket", ColumnKind::Int32, true),
        ("missing_1m_bars_first_30m", ColumnKind::Int32, true),
        ("missing_1m_bars_first_hour", ColumnKind::Int32, true),
        ("zero_volume_1m_bars_first_30m", ColumnKind::Int32, true),
        ("first_rth_bar_time", ColumnKind::Utf8, true),
        ("minutes_after_open_first_bar", ColumnKind::Int32, true),
        ("has_bad_ohlc", ColumnKind::Boolean, true),
        ("split_event_nearby", ColumnKind::Boolean, true),
        ("dividend_event_today", ColumnKind::Boolean, true),
        ("ticker_event_today", ColumnKind::Boolean, true),
        ("adjustment_factor_on_day", ColumnKind::Float64, true),
        ("signal_first_in_5d", ColumnKind::Boolean, true),
        ("signal_first_in_10d", ColumnKind::Boolean, true),
        ("signal_first_in_20d", ColumnKind::Boolean, true),
        ("signal_concentration_percentile_today", ColumnKind::Float64, true),
        ("signal_concentration_hhi_today", ColumnKind::Float64, true),
        ("premarket_volume_vs_20d_median", ColumnKind::Float64, true),
        ("pre_market_volume_spike_flag", ColumnKind::Boolean, true),
        ("high_52w", ColumnKind::Float64, true),
        ("low_52w", ColumnKind::Float64, true),
        ("days_since_last_5pct_move", ColumnKind::Int32, true),
        ("days_since_last_10pct_move", ColumnKind::Int32, true),
        ("days_since_last_20pct_move", ColumnKind::Int32, true),
        ("consecutive_up_days_close_to_close", ColumnKind::Int32, true),
        ("gap_filled_today_flag", ColumnKind::Boolean, true),
        ("day_of_week", ColumnKind::Int32, false),
        ("days_since_first_bar", ColumnKind::Int32, false),
        ("is_half_day", ColumnKind::Boolean, false),
    ];
    assert(plain(cols@) =~= spec_daily_observation_columns());
    let mut out: Vec<ColumnSpec> = Vec::new();
    push_plain(&mut out, &cols);
    assert(column_views(out@) =~= spec_daily_observation_columns());
    out
}


/// The `forward_path_short` layout: identity, entry offset and checkpoint,
/// the position state so far, the trade book, time quality, path shape and
/// the halt-gap flag.
pub open spec fn spec_forward_path_short_columns() -> Seq<(Seq<char>, ColumnKind, bool)> {
    seq![
        ("day"@, ColumnKind::Date32, false),
        ("security_id"@, ColumnKind::Utf8, false),
        ("entry_offset"@, ColumnKind::DictUtf8, false),
        ("path_checkpoint"@, ColumnKind::DictUtf8, false),
        ("ret"@, ColumnKind::Float64, true),
        ("high_ret_so_far"@, ColumnKind::Float64, true),
        ("low_ret_so_far"@, ColumnKind::Float64, true),
        ("close_max_ret_so_far"@, ColumnKind::Float64, true),
        ("close_min_ret_so_far"@, ColumnKind::Float64, true),
        ("volume_since_entry"@, ColumnKind::Float64, true),
        ("dollar_volume_since_entry"@, ColumnKind::Float64, true),
        ("vwap_since_entry"@, ColumnKind::Float64, true),
        ("bars_elapsed"@, ColumnKind::Int32, true),
        ("pct_bars_profitable_so_far"@, ColumnKind::Float64, true),
        ("pct_bars_underwater_so_far"@, ColumnKind::Float64, true),
        ("volatility_within_trade"@, ColumnKind::Float64, true),
        ("rate_of_change"@, ColumnKind::Float64, true),
        ("current_ret_over_atr_14d"@, ColumnKind::Float64, true),
        ("halt_gap_crossed"@, ColumnKind::Boolean, true),
    ]
}

/// The `forward_path_short` columns (19 of them).
pub fn forward_path_short_columns() -> (r: Vec<ColumnSpec>)
    ensures
        column_views(r@) == spec_forward_path_short_columns(),
        r@.len() == 19,
{
    let cols = vec![
        ("day", ColumnKind::Date32, false),
        ("security_id", ColumnKind::Utf8, false),
        ("entry_offset", ColumnKind::DictUtf8, false),
        ("path_checkpoint", ColumnKind::DictUtf8, false),
        ("ret", ColumnKind::Float64, true),
        ("high_ret_so_far", ColumnKind::Float64, true),
        ("low_ret_so_far", ColumnKind::Float64, true),
        ("close_max_ret_so_far", ColumnKind::Float64, true),
        ("close_min_ret_so_far", ColumnKind::Float64, true),
        ("volume_since_entry", ColumnKind::Float64, true),
        ("dollar_volume_since_entry", ColumnKind::Float64, true),
        ("vwap_since_entry", ColumnKind::Float64, true),
        ("bars_elapsed", ColumnKind::Int32, true),
        ("pct_bars_profitable_so_far", ColumnKind::Float64, true),
        ("pct_bars_underwater_so_far", ColumnKind::Float64, true),
        ("volatility_within_trade", ColumnKind::Float64, true),
        ("rate_of_change", ColumnKind::Float64, true),
        ("current_ret_over_atr_14d", ColumnKind::Float64, true),
        ("halt_gap_crossed", ColumnKind::Boolean, true),
    ];
    assert(plain(cols@) =~= spec_forward_path_short_columns());
    let mut out: Vec<ColumnSpec> = Vec::new();
    push_plain(&mut out, &cols);
    assert(column_views(out@) =~= spec_forward_path_short_columns());
    out
}

/// The `market_context_daily` layout: the day, the index intraday paths and
/// end-of-day aggregates, overnight and signal context, VIX, market
/// breadth and cross-sectional dispersion.
pub open spec fn spec_market_context_daily_columns() -> Seq<(Seq<char>, ColumnKind, bool)> {
    seq![
        ("day"@, ColumnKind::Date32, false),
        ("spy_intraday_10m"@, ColumnKind::BarList, false),
        ("qqq_intraday_10m"@, ColumnKind::BarList, false),
        ("iwm_intraday_10m"@, ColumnKind::BarList, false),
        ("spy_eod_open"@, ColumnKind::Float64, true),
        ("spy_eod_high"@, ColumnKind::Float64, true),
        ("spy_eod_low"@, ColumnKind::Float64, true),
        ("spy_eod_close"@, ColumnKind::Float64, true),
        ("spy_eod_volume"@, ColumnKind::Float64, true),
        ("qqq_eod_open"@, ColumnKind::Float64, true),
        ("qqq_eod_high"@, ColumnKind::Float64, true),
        ("qqq_eod_low"@, ColumnKind::Float64, true),
        ("qqq_eod_close"@, ColumnKind::Float64, true),
        ("qqq_eod_volume"@, ColumnKind::Float64, true),
        ("iwm_eod_open"@, ColumnKind::Float64, true),
        ("iwm_eod_high"@, ColumnKind::Float64, true),
        ("iwm_eod_low"@, ColumnKind::Float64, true),
        ("iwm_eod_close"@, ColumnKind::Float64, true),
        ("iwm_eod_volume"@, ColumnKind::Float64, true),
        ("spy_overnight_gap"@, ColumnKind::Float64, true),
        ("spy_ret_0930_to_1000"@, ColumnKind::Float64, true),
        ("spy_realized_vol_21d"@, ColumnKind::Float64, true),
        ("qqq_overnight_gap"@, ColumnKind::Float64, true),
        ("qqq_ret_0930_to_1000"@, ColumnKind::Float64, true),
        ("qqq_realized_vol_21d"@, ColumnKind::Float64, true),
        ("iwm_overnight_gap"@, ColumnKind::Float64, true),
        ("iwm_ret_0930_to_1000"@, ColumnKind::Float64, true),
        ("iwm_realized_vol_21d"@, ColumnKind::Float64, true),
        ("vix_open"@, ColumnKind::Float64, true),
        ("vix_close"@, ColumnKind::Float64, true),
        ("breadth_pct_universe_green_at_1000"@, ColumnKind::Float64, true),
        ("breadth_pct_universe_green_at_1030"@, ColumnKind::Float64, true),
        ("breadth_pct_universe_above_premarket_vwap_at_1000"@, ColumnKind::Float64, true),
        ("breadth_advance_decline_ratio_at_1000"@, ColumnKind::Float64, true),
        ("breadth_count_movers_above_5pct_at_1000"@, ColumnKind::Int32, true),
        ("breadth_count_movers_above_1atr_at_1000"@, ColumnKind::Int32, true),
        ("breadth_count_movers_above_5pct_eod"@, ColumnKind::Int32, true),
        ("breadth_advance_decline_ratio_eod"@, ColumnKind::Float64, true),
        ("breadth_total_universe_with_bars"@, ColumnKind::Int32, true),
        ("cross_sectional_ret_dispersion_at_1000"@, ColumnKind::Float64, true),
        ("cross_sectional_ret_dispersion_eod"@, ColumnKind::Float64, true),
        ("cross_sectional_ret_iqr_at_1000"@, ColumnKind::Float64, true),
        ("cross_sectional_ret_iqr_eod"@, ColumnKind::Float64, true),
        ("universe_median_addv_20d"@, ColumnKind::Float64, true),
        ("universe_total_dollar_volume"@, ColumnKind::Float64, true),
    ]
}

/// The `market_context_daily` columns (45 of them).
pub fn market_context_daily_columns() -> (r: Vec<ColumnSpec>)
    ensures
        column_views(r@) == spec_market_context_daily_columns(),
        r@.len() == 45,
{
    let cols = vec![
        ("day", ColumnKind::Date32, false),
        ("spy_intraday_10m", ColumnKind::BarList, false),
        ("qqq_intraday_10m", ColumnKind::BarList, false),
        ("iwm_intraday_10m", ColumnKind::BarList, false),
        ("spy_eod_open", ColumnKind::Float64, true),
        ("spy_eod_high", ColumnKind::Float64, true),
        ("spy_eod_low", ColumnKind::Float64, true),
        ("spy_eod_close", ColumnKind::Float64, true),
        ("spy_eod_volume", ColumnKind::Float64, true),
        ("qqq_eod_open", ColumnKind::Float64, true),
        ("qqq_eod_high", ColumnKind::Float64, true),
        ("qqq_eod_low", ColumnKind::Float64, true),
        ("qqq_eod_close", ColumnKind::Float64, true),
        ("qqq_eod_volume", ColumnKind::Float64, true),
        ("iwm_eod_open", ColumnKind::Float64, true),
        ("iwm_eod_high", ColumnKind::Float64, true),
        ("iwm_eod_low", ColumnKind::Float64, true),
        ("iwm_eod_close", ColumnKind::Float64, true),
        ("iwm_eod_volume", ColumnKind::Float64, true),
        ("spy_overnight_gap", ColumnKind::Float64, true),
        ("spy_ret_0930_to_1000", ColumnKind::Float64, true),
        ("spy_realized_vol_21d", ColumnKind::Float64, true),
        ("qqq_overnight_gap", ColumnKind::Float64, true),
        ("qqq_ret_0930_to_1000", ColumnKind::Float64, true),
        ("qqq_realized_vol_21d", ColumnKind::Float64, true),
        ("iwm_overnight_gap", ColumnKind::Float64, true),
        ("iwm_ret_0930_to_1000", ColumnKind::Float64, true),
        ("iwm_realized_vol_21d", ColumnKind::Float64, true),
        ("vix_open", ColumnKind::Float64, true),
        ("vix_close", ColumnKind::Float64, true),
        ("breadth_pct_universe_green_at_1000", ColumnKind::Float64, true),
        ("breadth_pct_universe_green_at_1030", ColumnKind::Float64, true),
        ("breadth_pct_universe_above_premarket_vwap_at_1000", ColumnKind::Float64, true),
        ("breadth_advance_decline_ratio_at_1000", ColumnKind::Float64, true),
        ("breadth_count_movers_above_5pct_at_1000", ColumnKind::Int32, true),
        ("breadth_count_movers_above_1atr_at_1000", ColumnKind::Int32, true),
        ("breadth_count_movers_above_5pct_eod", ColumnKind::Int32, true),
        ("breadth_advance_decline_ratio_eod", ColumnKind::Float64, true),
        ("breadth_total_universe_with_bars", ColumnKind::Int32, true),
        ("cross_sectional_ret_dispersion_at_1000", ColumnKind::Float64, true),
        ("cross_sectional_ret_dispersion_eod", ColumnKind::Float64, true),
        ("cross_sectional_ret_iqr_at_1000", ColumnKind::Float64, true),
        ("cross_sectional_ret_iqr_eod", ColumnKind::Float64, true),
        ("universe_median_addv_20d", ColumnKind::Float64, true),
        ("universe_total_dollar_volume", ColumnKind::Float64, true),
    ];
    assert(plain(cols@) =~= spec_market_context_daily_columns());
    let mut out: Vec<ColumnSpec> = Vec::new();
    push_plain(&mut out, &cols);
    assert(column_views(out@) =~= spec_market_context_daily_columns());
    out
}

/// The `sector_aggregates_daily` layout: one row per (day, sector).
pub open spec fn spec_sector_aggregates_daily_columns() -> Seq<(Seq<char>, ColumnKind, bool)> {
    seq![
        ("day"@, ColumnKind::Date32, false),
        ("sector_id"@, ColumnKind::DictUtf8, false),
        ("sector_constituent_count_with_bars"@, ColumnKind::Int32, false),
        ("sector_ret_0930_to_0950"@, ColumnKind::Float64, true),
        ("sector_ret_0930_to_1000"@, ColumnKind::Float64, true),
        ("sector_ret_0930_to_1030"@, ColumnKind::Float64, true),
        ("sector_eod_ret"@, ColumnKind::Float64, true),
        ("sector_pct_green_at_1000"@, ColumnKind::Float64, true),
        ("sector_pct_green_at_1030"@, ColumnKind::Float64, true),
        ("sector_ret_0930_to_1000_rank_today"@, ColumnKind::Int32, true),
    ]
}

/// The `sector_aggregates_daily` columns (10 of them).
pub fn sector_aggregates_daily_columns() -> (r: Vec<ColumnSpec>)
    ensures
        column_views(r@) == spec_sector_aggregates_daily_columns(),
        r@.len() == 10,
{
    let cols = vec![
        ("day", ColumnKind::Date32, false),
        ("sector_id", ColumnKind::DictUtf8, false),
        ("sector_constituent_count_with_bars", ColumnKind::Int32, false),
        ("sector_ret_0930_to_0950", ColumnKind::Float64, true),
        ("sector_ret_0930_to_1000", ColumnKind::Float64, true),
        ("sector_ret_0930_to_1030", ColumnKind::Float64, true),
        ("sector_eod_ret", ColumnKind::Float64, true),
        ("sector_pct_green_at_1000", ColumnKind::Float64, true),
        ("sector_pct_green_at_1030", ColumnKind::Float64, true),
        ("sector_ret_0930_to_1000_rank_today", ColumnKind::Int32, true),
    ];
    assert(plain(cols@) =~= spec_sector_aggregates_daily_columns());
    let mut out: Vec<ColumnSpec> = Vec::new();
    push_plain(&mut out, &cols);
    assert(column_views(out@) =~= spec_sector_aggregates_daily_columns());
    out
}

/// The `security_classification_daily` layout: identity, security
/// structure, listing, sector, size, liquidity, price, volatility,
/// beta/style and the v1 behavioral tags.
pub open spec fn spec_security_classification_daily_columns() -> Seq<(Seq<char>, ColumnKind, bool)> {
    seq![
        ("day"@, ColumnKind::Date32, false),
        ("security_id"@, ColumnKind::Utf8, false),
        ("display_symbol_on_day"@, ColumnKind::Utf8, false),
        ("ticker_type"@, ColumnKind::DictUtf8, true),
        ("is_common_stock"@, ColumnKind::Boolean, true),
        ("is_etf"@, ColumnKind::Boolean, true),
        ("is_leveraged_etf"@, ColumnKind::Boolean, true),
        ("is_inverse_etf"@, ColumnKind::Boolean, true),
        ("is_etn"@, ColumnKind::Boolean, true),
        ("is_adr"@, ColumnKind::Boolean, true),
        ("is_spac"@, ColumnKind::Boolean, true),
        ("is_warrant"@, ColumnKind::Boolean, true),
        ("is_preferred"@, ColumnKind::Boolean, true),
        ("is_unit"@, ColumnKind::Boolean, true),
        ("primary_exchange"@, ColumnKind::DictUtf8, true),
        ("listing_status"@, ColumnKind::DictUtf8, true),
        ("listing_status_date"@, ColumnKind::Date32, true),
        ("days_since_ipo_or_first_bar"@, ColumnKind::Int32, true),
        ("sector"@, ColumnKind::DictUtf8, true),
        ("industry"@, ColumnKind::DictUtf8, true),
        ("sub_industry"@, ColumnKind::DictUtf8, true),
        ("market_cap"@, ColumnKind::Float64, true),
        ("market_cap_bucket"@, ColumnKind::DictUtf8, true),
        ("market_cap_rank_today"@, ColumnKind::Int32, true),
        ("market_cap_percentile_today"@, ColumnKind::Float64, true),
        ("adv_20d"@, ColumnKind::Float64, true),
        ("adv_60d"@, ColumnKind::Float64, true),
        ("addv_20d"@, ColumnKind::Float64, true),
        ("addv_60d"@, ColumnKind::Float64, true),
        ("liquidity_bucket"@, ColumnKind::DictUtf8, true),
        ("addv_rank_today"@, ColumnKind::Int32, true),
        ("dollar_volume_rank_today"@, ColumnKind::Int32, true),
        ("prior_close_price"@, ColumnKind::Float64, true),
        ("price_bucket"@, ColumnKind::DictUtf8, true),
        ("atr_14d"@, ColumnKind::Float64, true),
        ("realized_vol_21d"@, ColumnKind::Float64, true),
        ("yang_zhang_vol_21d"@, ColumnKind::Float64, true),
        ("volatility_bucket"@, ColumnKind::DictUtf8, true),
        ("volatility_percentile_today"@, ColumnKind::Float64, true),
        ("beta_spy_60d"@, ColumnKind::Float64, true),
        ("beta_qqq_60d"@, ColumnKind::Float64, true),
        ("beta_iwm_60d"@, ColumnKind::Float64, true),
        ("style_bucket"@, ColumnKind::DictUtf8, true),
        ("is_mega_cap_tech"@, ColumnKind::Boolean, true),
        ("is_large_cap_tech"@, ColumnKind::Boolean, true),
        ("is_semiconductor"@, ColumnKind::Boolean, true),
        ("is_biotech"@, ColumnKind::Boolean, true),
        ("is_regional_bank"@, ColumnKind::Boolean, true),
        ("is_energy"@, ColumnKind::Boolean, true),
        ("is_china_adr"@, ColumnKind::Boolean, true),
        ("is_low_float_candidate"@, ColumnKind::Boolean, true),
        ("is_meme_candidate"@, ColumnKind::Boolean, true),
        ("is_recent_ipo"@, ColumnKind::Boolean, true),
    ]
}

/// The `security_classification_daily` columns (53 of them).
pub fn security_classification_daily_columns() -> (r: Vec<ColumnSpec>)
    ensures
        column_views(r@) == spec_security_classification_daily_columns(),
        r@.len() == 53,
{
    let cols = vec![
        ("day", ColumnKind::Date32, false),
        ("security_id", ColumnKind::Utf8, false),
        ("display_symbol_on_day", ColumnKind::Utf8, false),
        ("ticker_type", ColumnKind::DictUtf8, true),
        ("is_common_stock", ColumnKind::Boolean, true),
        ("is_etf", ColumnKind::Boolean, true),
        ("is_leveraged_etf", ColumnKind::Boolean, true),
        ("is_inverse_etf", ColumnKind::Boolean, true),
        ("is_etn", ColumnKind::Boolean, true),
        ("is_adr", ColumnKind::Boolean, true),
        ("is_spac", ColumnKind::Boolean, true),
        ("is_warrant", ColumnKind::Boolean, true),
        ("is_preferred", ColumnKind::Boolean, true),
        ("is_unit", ColumnKind::Boolean, true),
        ("primary_exchange", ColumnKind::DictUtf8, true),
        ("listing_status", ColumnKind::DictUtf8, true),
        ("listing_status_date", ColumnKind::Date32, true),
        ("days_since_ipo_or_first_bar", ColumnKind::Int32, true),
        ("sector", ColumnKind::DictUtf8, true),
        ("industry", ColumnKind::DictUtf8, true),
        ("sub_industry", ColumnKind::DictUtf8, true),
        ("market_cap", ColumnKind::Float64, true),
        ("market_cap_bucket", ColumnKind::DictUtf8, true),
        ("market_cap_rank_today", ColumnKind::Int32, true),
        ("market_cap_percentile_today", ColumnKind::Float64, true),
        ("adv_20d", ColumnKind::Float64, true),
        ("adv_60d", ColumnKind::Float64, true),
        ("addv_20d", ColumnKind::Float64, true),
        ("addv_60d", ColumnKind::Float64, true),
        ("liquidity_bucket", ColumnKind::DictUtf8, true),
        ("addv_rank_today", ColumnKind::Int32, true),
        ("dollar_volume_rank_today", ColumnKind::Int32, true),
        ("prior_close_price", ColumnKind::Float64, true),
        ("price_bucket", ColumnKind::DictUtf8, true),
        ("atr_14d", ColumnKind::Float64, true),
        ("realized_vol_21d", ColumnKind::Float64, true),
        ("yang_zhang_vol_21d", ColumnKind::Float64, true),
        ("volatility_bucket", ColumnKind::DictUtf8, true),
        ("volatility_percentile_today", ColumnKind::Float64, true),
        ("beta_spy_60d", ColumnKind::Float64, true),
        ("beta_qqq_60d", ColumnKind::Float64, true),
        ("beta_iwm_60d", ColumnKind::Float64, true),
        ("style_bucket", ColumnKind::DictUtf8, true),
        ("is_mega_cap_tech", ColumnKind::Boolean, true),
        ("is_large_cap_tech", ColumnKind::Boolean, true),
        ("is_semiconductor", ColumnKind::Boolean, true),
        ("is_biotech", ColumnKind::Boolean, true),
        ("is_regional_bank", ColumnKind::Boolean, true),
        ("is_energy", ColumnKind::Boolean, true),
        ("is_china_adr", ColumnKind::Boolean, true),
        ("is_low_float_candidate", ColumnKind::Boolean, true),
        ("is_meme_candidate", ColumnKind::Boolean, true),
        ("is_recent_ipo", ColumnKind::Boolean, true),
    ];
    assert(plain(cols@) =~= spec_security_classification_daily_columns());
    let mut out: Vec<ColumnSpec> = Vec::new();
    push_plain(&mut out, &cols);
    assert(column_views(out@) =~= spec_security_classification_daily_columns());
    out
}

/// The `figi_map` layout: one row per (security, symbol, validity window);
/// an open start or end is null.
pub open spec fn spec_figi_map_columns() -> Seq<(Seq<char>, ColumnKind, bool)> {
    seq![
        ("security_id"@, ColumnKind::Utf8, false),
        ("display_symbol"@, ColumnKind::Utf8, false),
        ("valid_from"@, ColumnKind::Date32, true),
        ("valid_to"@, ColumnKind::Date32, true),
    ]
}

/// The `figi_map` columns (4 of them).
pub fn figi_map_columns() -> (r: Vec<ColumnSpec>)
    ensures
        column_views(r@) == spec_figi_map_columns(),
        r@.len() == 4,
{
    let cols = vec![
        ("security_id", ColumnKind::Utf8, false),
        ("display_symbol", ColumnKind::Utf8, false),
        ("valid_from", ColumnKind::Date32, true),
        ("valid_to", ColumnKind::Date32, true),
    ];
    assert(plain(cols@) =~= spec_figi_map_columns());
    let mut out: Vec<ColumnSpec> = Vec::new();
    push_plain(&mut out, &cols);
    assert(column_views(out@) =~= spec_figi_map_columns());
    out
}

/// The `short_interest` layout: one row per (symbol, settlement date).
pub open spec fn spec_short_interest_columns() -> Seq<(Seq<char>, ColumnKind, bool)> {
    seq![
        ("security_id"@, ColumnKind::Utf8, true),
        ("display_symbol"@, ColumnKind::Utf8, false),
        ("settlement_date"@, ColumnKind::Date32, false),
        ("short_interest"@, ColumnKind::Float64, false),
        ("avg_daily_volume"@, ColumnKind::Float64, true),
        ("days_to_cover"@, ColumnKind::Float64, true),
    ]
}

/// The `short_interest` columns (6 of them).
pub fn short_interest_columns() -> (r: Vec<ColumnSpec>)
    ensures
        column_views(r@) == spec_short_interest_columns(),
        r@.len() == 6,
{
    let cols = vec![
        ("security_id", ColumnKind::Utf8, true),
        ("display_symbol", ColumnKind::Utf8, false),
        ("settlement_date", ColumnKind::Date32, false),
        ("short_interest", ColumnKind::Float64, false),
        ("avg_daily_volume", ColumnKind::Float64, true),
        ("days_to_cover", ColumnKind::Float64, true),
    ];
    assert(plain(cols@) =~= spec_short_interest_columns());
    let mut out: Vec<ColumnSpec> = Vec::new();
    push_plain(&mut out, &cols);
    assert(column_views(out@) =~= spec_short_interest_columns());
    out
}

/// The `financials` layout: one row per filing; the acceptance instant is
/// UTC nanoseconds, the full statement is kept as JSON text.
pub open spec fn spec_financials_columns() -> Seq<(Seq<char>, ColumnKind, bool)> {
    seq![
        ("security_id"@, ColumnKind::Utf8, true),
        ("ticker"@, ColumnKind::Utf8, false),
        ("cik"@, ColumnKind::Utf8, true),
        ("sic_from_filing"@, ColumnKind::Utf8, true),
        ("company_name"@, ColumnKind::Utf8, true),
        ("start_date"@, ColumnKind::Date32, true),
        ("end_date"@, ColumnKind::Date32, true),
        ("filing_date"@, ColumnKind::Date32, false),
        ("acceptance_datetime"@, ColumnKind::TimestampNsUtc, true),
        ("timeframe"@, ColumnKind::DictUtf8, true),
        ("fiscal_period"@, ColumnKind::DictUtf8, true),
        ("fiscal_year"@, ColumnKind::Utf8, true),
        ("source_filing_url"@, ColumnKind::Utf8, true),
        ("basic_average_shares"@, ColumnKind::Float64, true),
        ("diluted_average_shares"@, ColumnKind::Float64, true),
        ("basic_earnings_per_share"@, ColumnKind::Float64, true),
        ("diluted_earnings_per_share"@, ColumnKind::Float64, true),
        ("revenues"@, ColumnKind::Float64, true),
        ("net_income_loss"@, ColumnKind::Float64, true),
        ("equity"@, ColumnKind::Float64, true),
        ("assets"@, ColumnKind::Float64, true),
        ("financials_json"@, ColumnKind::Utf8, true),
    ]
}

/// The `financials` columns (22 of them).
pub fn financials_columns() -> (r: Vec<ColumnSpec>)
    ensures
        column_views(r@) == spec_financials_columns(),
        r@.len() == 22,
{
    let cols = vec![
        ("security_id", ColumnKind::Utf8, true),
        ("ticker", ColumnKind::Utf8, false),
        ("cik", ColumnKind::Utf8, true),
        ("sic_from_filing", ColumnKind::Utf8, true),
        ("company_name", ColumnKind::Utf8, true),
        ("start_date", ColumnKind::Date32, true),
        ("end_date", ColumnKind::Date32, true),
        ("filing_date", ColumnKind::Date32, false),
        ("acceptance_datetime", ColumnKind::TimestampNsUtc, true),
        ("timeframe", ColumnKind::DictUtf8, true),
        ("fiscal_period", ColumnKind::DictUtf8, true),
        ("fiscal_year", ColumnKind::Utf8, true),
        ("source_filing_url", ColumnKind::Utf8, true),
        ("basic_average_shares", ColumnKind::Float64, true),
        ("diluted_average_shares", ColumnKind::Float64, true),
        ("basic_earnings_per_share", ColumnKind::Float64, true),
        ("diluted_earnings_per_share", ColumnKind::Float64, true),
        ("revenues", ColumnKind::Float64, true),
        ("net_income_loss", ColumnKind::Float64, true),
        ("equity", ColumnKind::Float64, true),
        ("assets", ColumnKind::Float64, true),
        ("financials_json", ColumnKind::Utf8, true),
    ];
    assert(plain(cols@) =~= spec_financials_columns());
    let mut out: Vec<ColumnSpec> = Vec::new();
    push_plain(&mut out, &cols);
    assert(column_views(out@) =~= spec_financials_columns());
    out
}

} // verus!
