//! The entry points of the ledger.
//!
//! Each takes what the host supplies as plain values: the context of the
//! call, the ledger, and the decoded parameter.  An entry point that changes
//! the ledger returns the events to announce, in their order; when it fails
//! the ledger is as it was before the call.

pub mod add;
pub mod balance_of;
pub mod expiry_of;
pub mod init;
pub mod mint;
pub mod operator_of;
pub mod remove;
pub mod token_metadata;
pub mod transfer;
pub mod update_operator;
