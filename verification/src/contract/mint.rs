//! Minting: installing balance records for one holder.

use crate::errors::CustomError;
use crate::lemmas::lemma_mint_error_is_final;
use crate::model::{
    authorized, call_agrees, mint_all, mint_from, mint_step, MintRequest, Outcome,
};
use crate::state::{State, TokenBalanceState};
use crate::types::{
    events_view, AccountAddress, Address, ContractError, ContractEvent, ContractResult,
    ContractTokenAmount, ContractTokenId, ReceiveContext, Timestamp,
};
use vstd::prelude::*;

verus! {

/// What to mint of one token.
#[derive(Clone, Copy, Debug, PartialEq, Eq, Structural)]
pub struct MintParam {
    /// The amount of tokens to mint.
    pub amount: ContractTokenAmount,
    /// The expiry of the minted tokens.
    pub expiry: Timestamp,
}

/// Parameter of [`mint`].
#[derive(Debug, PartialEq, Eq)]
pub struct MintParams {
    /// Owner of the newly minted tokens.
    pub owner: AccountAddress,
    /// The tokens to mint, in the order in which they are minted.
    pub tokens: Vec<(ContractTokenId, MintParam)>,
}

impl MintParams {
    /// The requests of this parameter, in their order.
    pub open spec fn requests(self) -> Seq<MintRequest> {
        Seq::new(
            self.tokens.len() as nat,
            |i: int|
                MintRequest {
                    token_id: self.tokens[i].0,
                    record: TokenBalanceState {
                        amount: self.tokens[i].1.amount,
                        expiry: self.tokens[i].1.expiry,
                    },
                },
        )
    }
}

/// Mints tokens to `params.owner`, one record per request and in their
/// order.
///
/// Fails if the sender is not the owner of the ledger, at the first request
/// whose expiry is not after the instant of the call, and at the first
/// request for a token that is not registered.  A record replaces the one
/// the owner had: what that one still counted is announced as burnt, then
/// the mint is announced.
#[verifier::loop_isolation(false)]
pub fn mint(ctx: &ReceiveContext, state: &mut State, params: &MintParams) -> (r: ContractResult<
    Vec<ContractEvent>,
>)
    ensures
        call_agrees(
            authorized(*ctx, mint_all(old(state)@, params.owner, ctx.slot_time, params.requests())),
            old(state)@,
            final(state)@,
            r,
        ),
{
    if !ctx.is_authorized() {
        return Err(ContractError::Unauthorized);
    }
    let now = ctx.slot_time;
    let owner = params.owner;
    let n = params.tokens.len();
    let ghost before = state@;
    let ghost requests = params.requests();
    let ghost start = Outcome::start(before);

    // First pass: nothing is installed before every request is known to
    // pass.  `staged` is where the requests seen so far lead.
    let ghost mut staged = start;
    let mut i: usize = 0;
    while i < n
        invariant
            i <= n,
            state@ == before,
            mint_from(start, owner, now, requests.take(i as int)) == Ok::<Outcome, ContractError>(
                staged,
            ),
            staged.ledger.dom() =~= before.dom(),
        decreases n - i,
    {
        let token_id = params.tokens[i].0;
        let expiry = params.tokens[i].1.expiry;
        proof {
            assert(requests.take(i + 1).drop_last() =~= requests.take(i as int));
        }
        if expiry <= now {
            proof {
                lemma_mint_error_is_final(start, owner, now, requests, i + 1);
            }
            return Err(ContractError::Custom(CustomError::TokenExpired));
        }
        if !state.has_token(token_id) {
            proof {
                lemma_mint_error_is_final(start, owner, now, requests, i + 1);
            }
            return Err(ContractError::InvalidTokenId);
        }
        proof {
            staged = mint_step(staged, owner, now, requests[i as int])->Ok_0;
        }
        i += 1;
    }
    assert(requests.take(n as int) =~= requests);

    // Second pass: install the records and collect the events.
    let mut events: Vec<ContractEvent> = Vec::new();
    assert(events_view(events@) =~= start.events);
    let mut i: usize = 0;
    while i < n
        invariant
            i <= n,
            mint_from(start, owner, now, requests.take(i as int)) == Ok::<Outcome, ContractError>(
                Outcome { ledger: state@, events: events_view(events@) },
            ),
        decreases n - i,
    {
        let token_id = params.tokens[i].0;
        let mint_param = params.tokens[i].1;
        let ghost current = Outcome { ledger: state@, events: events_view(events@) };
        proof {
            assert(requests.take(i + 1).drop_last() =~= requests.take(i as int));
            // The whole batch passes, so this request does.
            if mint_step(current, owner, now, requests[i as int]) is Err {
                lemma_mint_error_is_final(start, owner, now, requests, i + 1);
            }
        }
        // Mint the tokens.
        match state.mint(token_id, owner, mint_param.amount, mint_param.expiry) {
            Ok(existing_balance) => {
                if let Some(balance) = existing_balance {
                    // There was an existing balance.
                    let amount = balance.get_balance(now);
                    if amount > 0 {
                        // It still counted: announce the burnt tokens.
                        events.push(
                            ContractEvent::Burn {
                                token_id,
                                owner: Address::Account(owner),
                                amount,
                            },
                        );
                    }
                }
                // Announce the minted tokens.
                events.push(
                    ContractEvent::Mint {
                        token_id,
                        owner: Address::Account(owner),
                        amount: mint_param.amount,
                    },
                );
                proof {
                    let after = mint_step(current, owner, now, requests[i as int])->Ok_0;
                    assert(events_view(events@) =~= after.events);
                }
            },
            Err(e) => {
                // Not reached: the first pass found the token registered.
                return Err(e);
            },
        }
        i += 1;
    }
    Ok(events)
}

} // verus!
