//! The transfer call.

use crate::state::State;
use crate::types::{ContractError, ContractResult, ReceiveContext};
use vstd::prelude::*;

verus! {

/// Transfers are not allowed on this ledger: the call is refused whoever
/// makes it and whatever the ledger holds, and the ledger stays as it is.
pub fn transfer(ctx: &ReceiveContext, state: &mut State) -> (r: ContractResult<()>)
    ensures
        r == Err::<(), ContractError>(ContractError::Unauthorized),
        final(state)@ == old(state)@,
{
    Err(ContractError::Unauthorized)
}

} // verus!
