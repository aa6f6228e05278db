//! The ledger's own error kinds.

use vstd::prelude::*;

verus! {

/// Errors beyond those that every token ledger shares.
#[derive(Clone, Copy, Debug, PartialEq, Eq, Structural)]
pub enum CustomError {
    /// Failed parsing the parameter.
    ParseParams,
    /// Failed logging: the log is full.
    LogFull,
    /// Failed logging: the log is malformed.
    LogMalformed,
    /// A query named an address that is not an account.
    AccountsOnly,
    /// The expiry of a mint is not in the future.
    TokenExpired,
    /// The token still has balances that count.
    TokenHasValidBalances,
}

/// Why the event log refused an entry.
#[derive(Clone, Copy, Debug, PartialEq, Eq, Structural)]
pub enum LogError {
    /// The log holds as many entries as it can.
    Full,
    /// The entry could not be written as given.
    Malformed,
}

/// A parameter could not be decoded.
#[derive(Clone, Copy, Debug, PartialEq, Eq, Structural)]
pub struct ParseError {}

impl From<LogError> for CustomError {
    fn from(le: LogError) -> (r: Self) {
        match le {
            LogError::Full => Self::LogFull,
            LogError::Malformed => Self::LogMalformed,
        }
    }
}

impl vstd::std_specs::convert::FromSpecImpl<LogError> for CustomError {
    open spec fn obeys_from_spec() -> bool {
        true
    }

    open spec fn from_spec(le: LogError) -> Self {
        match le {
            LogError::Full => CustomError::LogFull,
            LogError::Malformed => CustomError::LogMalformed,
        }
    }
}

impl From<ParseError> for CustomError {
    fn from(_pe: ParseError) -> (r: Self) {
        Self::ParseParams
    }
}

impl vstd::std_specs::convert::FromSpecImpl<ParseError> for CustomError {
    open spec fn obeys_from_spec() -> bool {
        true
    }

    open spec fn from_spec(_pe: ParseError) -> Self {
        CustomError::ParseParams
    }
}

} // verus!
