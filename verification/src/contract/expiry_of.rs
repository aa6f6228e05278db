//! The expiry query.

use crate::errors::CustomError;
use crate::model::{batch_agrees, expiry_answers, first_failure};
use crate::state::State;
use crate::types::{
    Address, ContractError, ContractExpiryOfQueryParams, ContractResult, Timestamp,
};
use vstd::prelude::*;

verus! {

/// Answer of the expiry query: one expiry per query, in their order, and
/// `None` where the account has no record.
#[derive(Debug, PartialEq, Eq)]
pub struct ExpiryOfQueryResponse(pub Vec<Option<Timestamp>>);

/// The expiry recorded for each queried account on each queried token, in
/// the order of the queries.  An expiry that has passed is reported as it
/// was recorded.
///
/// The first query that names an address other than an account, or a token
/// that is not registered, fails the whole call.
#[verifier::loop_isolation(false)]
pub fn expiry_of(state: &State, params: &ContractExpiryOfQueryParams) -> (r: ContractResult<
    ExpiryOfQueryResponse,
>)
    ensures
        batch_agrees(
            expiry_answers(state@, params.queries@),
            match r {
                Ok(response) => Ok(response.0@),
                Err(e) => Err(e),
            },
        ),
{
    let ghost answers = expiry_answers(state@, params.queries@);
    let n = params.queries.len();
    let mut response: Vec<Option<Timestamp>> = Vec::new();
    let mut i: usize = 0;
    while i < n
        invariant
            i <= n,
            response.len() == i,
            forall|j: int|
                0 <= j < i ==> (#[trigger] answers[j]) == Ok::<Option<Timestamp>, ContractError>(
                    response[j],
                ),
        decreases n - i,
    {
        let q = &params.queries[i];
        let answer = match q.address {
            Address::Account(address) => state.get_account_balance_expiry(q.token_id, address),
            Address::Contract(_) => Err(ContractError::Custom(CustomError::AccountsOnly)),
        };
        match answer {
            Ok(expiry) => response.push(expiry),
            Err(e) => {
                assert(first_failure(answers, i as int, e));
                return Err(e);
            },
        }
        i += 1;
    }
    Ok(ExpiryOfQueryResponse(response))
}

} // verus!
