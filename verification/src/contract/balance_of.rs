//! The balance query.

use crate::errors::CustomError;
use crate::model::{balance_answers, batch_agrees, first_failure};
use crate::state::State;
use crate::types::{
    Address, ContractBalanceOfQueryParams, ContractBalanceOfQueryResponse, ContractError,
    ContractResult, ContractTokenAmount, ReceiveContext,
};
use vstd::prelude::*;

verus! {

/// What each queried account holds of each queried token at the instant of
/// the call, in the order of the queries.
///
/// The first query that names an address other than an account, or a token
/// that is not registered, fails the whole call.
#[verifier::loop_isolation(false)]
pub fn balance_of(ctx: &ReceiveContext, state: &State, params: &ContractBalanceOfQueryParams) -> (r:
    ContractResult<ContractBalanceOfQueryResponse>)
    ensures
        batch_agrees(
            balance_answers(state@, ctx.slot_time, params.queries@),
            match r {
                Ok(response) => Ok(response.0@),
                Err(e) => Err(e),
            },
        ),
{
    let ghost answers = balance_answers(state@, ctx.slot_time, params.queries@);
    let n = params.queries.len();
    let mut response: Vec<ContractTokenAmount> = Vec::new();
    let mut i: usize = 0;
    while i < n
        invariant
            i <= n,
            response.len() == i,
            forall|j: int|
                0 <= j < i ==> (#[trigger] answers[j]) == Ok::<ContractTokenAmount, ContractError>(
                    response[j],
                ),
        decreases n - i,
    {
        let q = &params.queries[i];
        let answer = match q.address {
            Address::Account(address) => state.get_account_balance(
                q.token_id,
                address,
                ctx.slot_time,
            ),
            Address::Contract(_) => Err(ContractError::Custom(CustomError::AccountsOnly)),
        };
        match answer {
            Ok(amount) => response.push(amount),
            Err(e) => {
                assert(first_failure(answers, i as int, e));
                return Err(e);
            },
        }
        i += 1;
    }
    Ok(ContractBalanceOfQueryResponse(response))
}

} // verus!
