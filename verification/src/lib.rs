//! A ledger of expiring token balances.
//!
//! Each registered token type carries a metadata reference and, per holder
//! account, a quantity that counts only until a recorded expiry instant.  The
//! entry points under [`contract`] register, mint, remove and query tokens;
//! the ledger itself lives in [`state`], and [`model`] states in mathematical
//! terms what every operation does.

pub mod contract;
pub mod errors;
pub mod lemmas;
pub mod model;
pub mod state;
pub mod types;
