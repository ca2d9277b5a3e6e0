//! The error of a value that cannot be parsed.

use vstd::prelude::*;

verus! {

/// What a rejected value was to become.
#[derive(Clone, Copy, Debug, PartialEq, Eq, Hash)]
pub enum Target {
    Action,
    Admin,
    AdminConfig,
    Blockstamp,
    ChainId,
    Config,
    Delay,
    Domain,
    Duration,
    Empty,
    HashObserved,
    Height,
    Observation,
    OnionConfig,
    OracleConfig,
    OracleIdentity,
    OracleVoteValue,
    PrefixOrderDomain,
    Quorum,
    Time,
    Timeout,
    Total,
    U32,
    U64,
    VotingConfig,
    Zone,
}

/// A value that could not be parsed, and what it was to become.
#[derive(Clone, Debug, PartialEq, Eq, Hash)]
pub struct ParseError {
    pub target: Target,
    pub value: String,
}

/// What a [`ParseError`] says.
pub struct ParseErrorView {
    pub target: Target,
    pub value: Seq<char>,
}

impl View for ParseError {
    type V = ParseErrorView;

    open spec fn view(&self) -> ParseErrorView {
        ParseErrorView { target: self.target, value: self.value@ }
    }
}

impl ParseError {
    /// The error for `value`, which was to become a `target`.
    pub fn new(target: Target, value: &str) -> (r: ParseError)
        ensures
            r@ == (ParseErrorView { target, value: value@ }),
    {
        ParseError { target, value: value.to_string() }
    }

    /// The error for a part that is not there.
    pub fn missing(target: Target) -> (r: ParseError)
        ensures
            r@ == missing(target),
    {
        ParseError::new(target, "missing")
    }
}

/// What the error for a part that is not there says.
pub open spec fn missing(target: Target) -> ParseErrorView {
    ParseErrorView { target, value: "missing"@ }
}

} // verus!
