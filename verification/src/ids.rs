//! Opaque identifier newtypes: the engine-side `SecurityId` (composite
//! FIGI) and the vendor-side `DisplaySymbol` (ticker), kept apart by type.

use vstd::prelude::*;

verus! {

/// Engine identity key (composite FIGI).
#[derive(Debug, Clone, PartialEq, Eq, Hash)]
pub struct SecurityId(String);

impl View for SecurityId {
    type V = Seq<char>;

    closed spec fn view(&self) -> Seq<char> {
        self.0@
    }
}

impl SecurityId {
    pub fn new(s: &str) -> (r: Self)
        ensures
            r@ == s@,
    {
        SecurityId(s.to_owned())
    }

    pub fn as_str(&self) -> (r: &str)
        ensures
            r@ == self@,
    {
        self.0.as_str()
    }

    /// The identifier's text, as it is displayed.
    pub fn to_string(&self) -> (r: String)
        ensures
            r@ == self@,
    {
        self.0.clone()
    }
}

/// Vendor ticker as displayed on a given day.
#[derive(Debug, Clone, PartialEq, Eq, Hash)]
pub struct DisplaySymbol(String);

impl View for DisplaySymbol {
    type V = Seq<char>;

    closed spec fn view(&self) -> Seq<char> {
        self.0@
    }
}

impl DisplaySymbol {
    pub fn new(s: &str) -> (r: Self)
        ensures
            r@ == s@,
    {
        DisplaySymbol(s.to_owned())
    }

    pub fn as_str(&self) -> (r: &str)
        ensures
            r@ == self@,
    {
        self.0.as_str()
    }

    pub fn to_string(&self) -> (r: String)
        ensures
            r@ == self@,
    {
        self.0.clone()
    }
}

} // verus!
