//! Terminal/exit attributes of the derived per-trade tables.
//!
//! The engine does not materialize these during the primary tables; they
//! belong to the projection layer built over `forward_outcomes` and
//! `forward_path_short`.

use vstd::prelude::*;

verus! {

#[derive(Debug, Clone, Copy, PartialEq, Eq)]
#[non_exhaustive]
pub enum PathEndReason {
    HorizonReached,
    Delisted,
    Halted,
    Merged,
    EndOfData,
}

pub open spec fn path_end_reason_label(r: PathEndReason) -> Seq<char> {
    match r {
        PathEndReason::HorizonReached => "horizon_reached"@,
        PathEndReason::Delisted => "delisted"@,
        PathEndReason::Halted => "halted"@,
        PathEndReason::Merged => "merged"@,
        PathEndReason::EndOfData => "end_of_data"@,
    }
}

impl PathEndReason {
    pub fn as_str(&self) -> (r: &'static str)
        ensures
            r@ == path_end_reason_label(*self),
    {
        match self {
            Self::HorizonReached => "horizon_reached",
            Self::Delisted => "delisted",
            Self::Halted => "halted",
            Self::Merged => "merged",
            Self::EndOfData => "end_of_data",
        }
    }
}

#[derive(Debug, Clone, Copy, PartialEq, Eq)]
#[non_exhaustive]
pub enum TerminalValueSource {
    LastBarHorizon,
    LastBarPreDelist,
    LastBarHalted,
    LastBarUnderDeal,
    LastBarEndOfData,
}

pub open spec fn terminal_value_source_label(s: TerminalValueSource) -> Seq<char> {
    match s {
        TerminalValueSource::LastBarHorizon => "last_bar_horizon"@,
        TerminalValueSource::LastBarPreDelist => "last_bar_pre_delist"@,
        TerminalValueSource::LastBarHalted => "last_bar_halted"@,
        TerminalValueSource::LastBarUnderDeal => "last_bar_under_deal"@,
        TerminalValueSource::LastBarEndOfData => "last_bar_end_of_data"@,
    }
}

impl TerminalValueSource {
    pub fn as_str(&self) -> (r: &'static str)
        ensures
            r@ == terminal_value_source_label(*self),
    {
        match self {
            Self::LastBarHorizon => "last_bar_horizon",
            Self::LastBarPreDelist => "last_bar_pre_delist",
            Self::LastBarHalted => "last_bar_halted",
            Self::LastBarUnderDeal => "last_bar_under_deal",
            Self::LastBarEndOfData => "last_bar_end_of_data",
        }
    }
}

#[derive(Debug, Clone, Copy, PartialEq, Eq)]
#[non_exhaustive]
pub enum Phase0ExitReason {
    BreakevenRule,
    OpenAtEnd,
}

pub open spec fn exit_reason_label(r: Phase0ExitReason) -> Seq<char> {
    match r {
        Phase0ExitReason::BreakevenRule => "breakeven_rule"@,
        Phase0ExitReason::OpenAtEnd => "open_at_end"@,
    }
}

impl Phase0ExitReason {
    pub fn as_str(&self) -> (r: &'static str)
        ensures
            r@ == exit_reason_label(*self),
    {
        match self {
            Self::BreakevenRule => "breakeven_rule",
            Self::OpenAtEnd => "open_at_end",
        }
    }
}

} // verus!
