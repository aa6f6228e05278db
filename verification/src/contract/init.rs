//! Initialisation of the ledger.

use crate::model::TokenStateView;
use crate::state::State;
use crate::types::{ContractResult, ContractTokenId};
use vstd::prelude::*;

verus! {

/// Creates the ledger, with no token types.
pub fn init() -> (r: ContractResult<State>)
    ensures
        r matches Ok(state) && state@ == Map::<ContractTokenId, TokenStateView>::empty(),
{
    Ok(State::empty())
}

} // verus!
