//! The metadata query.

use crate::model::{batch_agrees, first_failure, metadata_answers};
use crate::state::State;
use crate::types::{
    ContractError, ContractResult, ContractTokenMetadataQueryParams, MetadataUrl,
    MetadataUrlView, TokenMetadataQueryResponse,
};
use vstd::prelude::*;

verus! {

/// The metadata of every answer, in their order.
pub open spec fn metadata_views(response: Seq<MetadataUrl>) -> Seq<MetadataUrlView> {
    Seq::new(response.len(), |i: int| response[i]@)
}

/// The metadata of each queried token, in the order of the queries.
///
/// The first query that names a token that is not registered fails the
/// whole call.
#[verifier::loop_isolation(false)]
pub fn token_metadata(state: &State, params: &ContractTokenMetadataQueryParams) -> (r:
    ContractResult<TokenMetadataQueryResponse>)
    ensures
        batch_agrees(
            metadata_answers(state@, params.queries@),
            match r {
                Ok(response) => Ok(metadata_views(response.0@)),
                Err(e) => Err(e),
            },
        ),
{
    let ghost answers = metadata_answers(state@, params.queries@);
    let n = params.queries.len();
    let mut response: Vec<MetadataUrl> = Vec::new();
    let mut i: usize = 0;
    while i < n
        invariant
            i <= n,
            response.len() == i,
            forall|j: int|
                0 <= j < i ==> (#[trigger] answers[j]) == Ok::<MetadataUrlView, ContractError>(
                    response[j]@,
                ),
        decreases n - i,
    {
        match state.get_token_metadata(&params.queries[i]) {
            Ok(metadata) => response.push(metadata),
            Err(e) => {
                assert(first_failure(answers, i as int, e));
                return Err(e);
            },
        }
        i += 1;
    }
    Ok(TokenMetadataQueryResponse(response))
}

} // verus!
