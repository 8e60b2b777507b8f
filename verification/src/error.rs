use vstd::prelude::*;

use crate::common::mass::{Gram, Ratio};

verus! {

/// The closed set of typed errors that the core's fallible operations report.
///
/// Every recoverable failure carries the offending values, so a caller can
/// render a message without the core doing any formatting itself.
#[derive(Debug, Clone, PartialEq)]
pub enum Error {
    /// A percentage value lay outside its declared inclusive bound:
    /// carries the value and the bound.
    InvalidPercentage(usize, usize, usize),
    /// A flour descriptor was not of the form `<name>:<integer percent>`.
    InvalidFlourArg(String),
    /// A preferment descriptor was not of the form `<id>:<args>`.
    InvalidPrefermentArgs(String),
    /// No preferment builder is registered under the given id.
    InvalidPreferment(String),
    /// Preferment flour demand exceeded the bulk flour that is available:
    /// carries the available mass and the requested mass.
    InsufficientFlour(Gram, Gram),
    /// The flour fractions of a mix do not account for exactly 100% of the
    /// total flour: carries the actual sum.
    InsufficientFLourRatios(Ratio),
    /// Starter arguments were not of the form `<ratio>:<hydration>`.
    InvalidStarterArgs(String),
    /// An enrichment descriptor was neither `<name>%<ratio>` nor `<name>:<mass>`.
    InvalidEnrichmentArg(String),
    /// A subtraction would have produced a negative mass:
    /// carries the minuend and the subtrahend.
    NegativeMass(Gram, Gram),
}

impl Error {
    /// The error reports the given text as a malformed starter argument.
    pub open spec fn is_invalid_starter_args(self, s: Seq<char>) -> bool {
        match self {
            Error::InvalidStarterArgs(d) => d@ == s,
            _ => false,
        }
    }

    /// The error reports the given text as a malformed preferment descriptor.
    pub open spec fn is_invalid_preferment_args(self, s: Seq<char>) -> bool {
        match self {
            Error::InvalidPrefermentArgs(d) => d@ == s,
            _ => false,
        }
    }

    /// The error reports the given text as an unknown preferment id.
    pub open spec fn is_invalid_preferment(self, s: Seq<char>) -> bool {
        match self {
            Error::InvalidPreferment(d) => d@ == s,
            _ => false,
        }
    }

    /// The error reports the given text as a malformed flour descriptor.
    pub open spec fn is_invalid_flour_arg(self, s: Seq<char>) -> bool {
        match self {
            Error::InvalidFlourArg(d) => d@ == s,
            _ => false,
        }
    }

    /// The error reports the given text as a malformed enrichment descriptor.
    pub open spec fn is_invalid_enrichment_arg(self, s: Seq<char>) -> bool {
        match self {
            Error::InvalidEnrichmentArg(d) => d@ == s,
            _ => false,
        }
    }
}

} // verus!
