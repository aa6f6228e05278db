//! The operator query.

use crate::types::{ContractResult, OperatorOfQueryParams, OperatorOfQueryResponse};
use vstd::prelude::*;

verus! {

/// Whether each queried address may act for each queried owner.  Nobody
/// acts for anybody on this ledger: every answer is `false`.
pub fn contract_operator_of(params: &OperatorOfQueryParams) -> (r: ContractResult<
    OperatorOfQueryResponse,
>)
    ensures
        r matches Ok(response) && response.0@ == Seq::new(
            params.queries.len() as nat,
            |i: int| false,
        ),
{
    let n = params.queries.len();
    let mut response: Vec<bool> = Vec::new();
    let mut i: usize = 0;
    while i < n
        invariant
            i <= n,
            response.len() == i,
            forall|j: int| 0 <= j < i ==> !response[j],
        decreases n - i,
    {
        response.push(false);
        i += 1;
    }
    Ok(OperatorOfQueryResponse(response))
}

} // verus!
