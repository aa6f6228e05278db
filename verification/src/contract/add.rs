//! Registration: adding token types to the ledger.

use crate::lemmas::lemma_register_error_is_final;
use crate::model::{
    authorized, call_agrees, register_all, register_from, register_step, Outcome,
    RegisterRequest,
};
use crate::state::State;
use crate::types::{
    events_view, ContractError, ContractEvent, ContractResult, ContractTokenId, MetadataUrl,
    ReceiveContext,
};
use std::collections::HashSet;
use vstd::prelude::*;

verus! {

broadcast use vstd::std_specs::hash::group_hash_axioms;

/// One token to register.
#[derive(Debug, PartialEq, Eq)]
pub struct AddTokenParams {
    pub token_id: ContractTokenId,
    pub metadata_url: MetadataUrl,
}

/// Parameter of [`add`].
#[derive(Debug, PartialEq, Eq)]
pub struct AddParams {
    /// The tokens to register, in the order in which they are registered.
    pub tokens: Vec<AddTokenParams>,
}

impl AddParams {
    /// The requests of this parameter, in their order.
    pub open spec fn requests(self) -> Seq<RegisterRequest> {
        Seq::new(
            self.tokens.len() as nat,
            |i: int|
                RegisterRequest {
                    token_id: self.tokens[i].token_id,
                    metadata_url: self.tokens[i].metadata_url@,
                },
        )
    }
}

/// Adds tokens to the ledger, in their order, each without balances.
///
/// Fails if the sender is not the owner of the ledger, and at the first
/// token whose identifier is registered already (one that the call
/// registered is).  For every token added its metadata is announced.
#[verifier::loop_isolation(false)]
pub fn add(ctx: &ReceiveContext, state: &mut State, params: &AddParams) -> (r: ContractResult<
    Vec<ContractEvent>,
>)
    ensures
        call_agrees(
            authorized(*ctx, register_all(old(state)@, params.requests())),
            old(state)@,
            final(state)@,
            r,
        ),
{
    if !ctx.is_authorized() {
        return Err(ContractError::Unauthorized);
    }
    let n = params.tokens.len();
    let ghost before = state@;
    let ghost requests = params.requests();
    let ghost start = Outcome::start(before);

    // First pass: nothing is registered before every token is known to
    // pass.  `staged` is where the requests seen so far lead, and `added`
    // holds the identifiers they name.
    let ghost mut staged = start;
    let mut added: HashSet<ContractTokenId> = HashSet::new();
    let mut i: usize = 0;
    while i < n
        invariant
            i <= n,
            state@ == before,
            register_from(start, requests.take(i as int)) == Ok::<Outcome, ContractError>(staged),
            staged.ledger.dom() =~= before.dom().union(added@),
        decreases n - i,
    {
        let token_id = params.tokens[i].token_id;
        proof {
            assert(requests.take(i + 1).drop_last() =~= requests.take(i as int));
        }
        // Ensure that the token does not already exist.
        if state.has_token(token_id) || added.contains(&token_id) {
            proof {
                lemma_register_error_is_final(start, requests, i + 1);
            }
            return Err(ContractError::InvalidTokenId);
        }
        added.insert(token_id);
        proof {
            staged = register_step(staged, requests[i as int])->Ok_0;
        }
        i += 1;
    }
    assert(requests.take(n as int) =~= requests);

    // Second pass: register the tokens and collect the events.
    let mut events: Vec<ContractEvent> = Vec::new();
    assert(events_view(events@) =~= start.events);
    let mut i: usize = 0;
    while i < n
        invariant
            i <= n,
            register_from(start, requests.take(i as int)) == Ok::<Outcome, ContractError>(
                Outcome { ledger: state@, events: events_view(events@) },
            ),
        decreases n - i,
    {
        let token_id = params.tokens[i].token_id;
        let ghost current = Outcome { ledger: state@, events: events_view(events@) };
        proof {
            assert(requests.take(i + 1).drop_last() =~= requests.take(i as int));
            // The whole batch passes, so this request does.
            if register_step(current, requests[i as int]) is Err {
                lemma_register_error_is_final(start, requests, i + 1);
            }
        }
        // Add the token to the ledger.
        state.add_token(token_id, params.tokens[i].metadata_url.clone());
        // Announce the token's metadata.
        events.push(
            ContractEvent::TokenMetadata {
                token_id,
                metadata_url: params.tokens[i].metadata_url.clone(),
            },
        );
        proof {
            let after = register_step(current, requests[i as int])->Ok_0;
            assert(events_view(events@) =~= after.events);
        }
        i += 1;
    }
    Ok(events)
}

} // verus!
