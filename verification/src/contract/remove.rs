//! Removal: retiring tokens that no longer carry a balance.

use crate::errors::CustomError;
use crate::lemmas::lemma_remove_error_is_final;
use crate::model::{
    authorized, call_agrees, remove_all, remove_from, remove_step, Outcome,
};
use crate::state::State;
use crate::types::{
    events_view, ContractError, ContractEvent, ContractResult, ContractTokenId, MetadataUrl,
    ReceiveContext,
};
use std::collections::HashSet;
use vstd::prelude::*;

verus! {

broadcast use vstd::std_specs::hash::group_hash_axioms;

/// Parameter of [`remove`].
#[derive(Debug, PartialEq, Eq)]
pub struct RemoveParams {
    /// The tokens to remove, in the order in which they are removed.
    pub tokens: Vec<ContractTokenId>,
}

/// Removes tokens from the ledger, in their order, each with all its
/// records.
///
/// Fails if the sender is not the owner of the ledger, at the first token
/// that is not registered (one that the call removed already is not), and
/// at the first token with a balance that counts at the instant of the
/// call.  For every token removed, empty metadata is announced, so that
/// observers retract what they hold.
#[verifier::loop_isolation(false)]
pub fn remove(ctx: &ReceiveContext, state: &mut State, params: &RemoveParams) -> (r: ContractResult<
    Vec<ContractEvent>,
>)
    ensures
        call_agrees(
            authorized(*ctx, remove_all(old(state)@, ctx.slot_time, params.tokens@)),
            old(state)@,
            final(state)@,
            r,
        ),
{
    if !ctx.is_authorized() {
        return Err(ContractError::Unauthorized);
    }
    let now = ctx.slot_time;
    let n = params.tokens.len();
    let ghost before = state@;
    let ghost token_ids = params.tokens@;
    let ghost start = Outcome::start(before);

    // First pass: nothing is removed before every token is known to pass.
    // `staged` is where the tokens seen so far lead, and `removed` holds
    // them.
    let ghost mut staged = start;
    let mut removed: HashSet<ContractTokenId> = HashSet::new();
    let mut i: usize = 0;
    while i < n
        invariant
            i <= n,
            state@ == before,
            remove_from(start, now, token_ids.take(i as int)) == Ok::<Outcome, ContractError>(
                staged,
            ),
            staged.ledger =~= before.remove_keys(removed@),
        decreases n - i,
    {
        let token_id = params.tokens[i];
        proof {
            assert(token_ids.take(i + 1).drop_last() =~= token_ids.take(i as int));
        }
        // Ensure that the token exists.
        if !state.has_token(token_id) || removed.contains(&token_id) {
            proof {
                lemma_remove_error_is_final(start, now, token_ids, i + 1);
            }
            return Err(ContractError::InvalidTokenId);
        }
        // Ensure that the token does not have valid balances.
        if state.has_balances(token_id, now) {
            proof {
                lemma_remove_error_is_final(start, now, token_ids, i + 1);
            }
            return Err(ContractError::Custom(CustomError::TokenHasValidBalances));
        }
        removed.insert(token_id);
        proof {
            staged = remove_step(staged, now, token_ids[i as int])->Ok_0;
        }
        i += 1;
    }
    assert(token_ids.take(n as int) =~= token_ids);

    // Second pass: remove the tokens and collect the events.
    let mut events: Vec<ContractEvent> = Vec::new();
    assert(events_view(events@) =~= start.events);
    let mut i: usize = 0;
    while i < n
        invariant
            i <= n,
            remove_from(start, now, token_ids.take(i as int)) == Ok::<Outcome, ContractError>(
                Outcome { ledger: state@, events: events_view(events@) },
            ),
        decreases n - i,
    {
        let token_id = params.tokens[i];
        let ghost current = Outcome { ledger: state@, events: events_view(events@) };
        proof {
            assert(token_ids.take(i + 1).drop_last() =~= token_ids.take(i as int));
            // The whole batch passes, so this token does.
            if remove_step(current, now, token_ids[i as int]) is Err {
                lemma_remove_error_is_final(start, now, token_ids, i + 1);
            }
        }
        // Remove the token from the ledger.
        state.remove_token(token_id);
        // Announce empty metadata, so that observers drop what they hold.
        events.push(ContractEvent::TokenMetadata { token_id, metadata_url: MetadataUrl::empty() });
        proof {
            let after = remove_step(current, now, token_ids[i as int])->Ok_0;
            assert(events_view(events@) =~= after.events);
        }
        i += 1;
    }
    Ok(events)
}

} // verus!
