//! The ledger as a mathematical object, and what each operation does to it.
//!
//! A ledger is a map from token identifiers to tokens; a token is its
//! metadata and a map from holders to balance records.  A batch operation is
//! the fold of a step over the requests in their order: it stops at the
//! first request that fails, and then nothing of the batch is kept.  A batch
//! of queries answers each query on its own, and fails with the first that
//! fails.

use crate::errors::CustomError;
use crate::state::TokenBalanceState;
use crate::types::{
    events_view, AccountAddress, Address, BalanceOfQuery, ContractError, ContractEvent,
    ContractEventView, ContractTokenAmount, ContractTokenId, MetadataUrlView, ReceiveContext,
    Timestamp,
};
use vstd::prelude::*;

verus! {

/// Mathematical value of one registered token.
pub struct TokenStateView {
    /// The record of each holder that was ever minted to.
    pub balances: Map<AccountAddress, TokenBalanceState>,
    /// The metadata given at registration.
    pub metadata: MetadataUrlView,
}

/// Mathematical value of the whole ledger.
pub type LedgerView = Map<ContractTokenId, TokenStateView>;

impl TokenStateView {
    /// A token as registration leaves it: no holder has a record.
    pub open spec fn fresh(metadata: MetadataUrlView) -> Self {
        TokenStateView { balances: Map::empty(), metadata }
    }

    /// What `account` holds at `now`: the recorded amount while the record
    /// has not expired, zero afterwards and zero without a record.
    pub open spec fn balance_of(
        self,
        account: AccountAddress,
        now: Timestamp,
    ) -> ContractTokenAmount {
        if self.balances.contains_key(account) {
            self.balances[account].balance_at(now)
        } else {
            0
        }
    }

    /// The expiry recorded for `account`, whether or not it has passed.
    pub open spec fn expiry_of(self, account: AccountAddress) -> Option<Timestamp> {
        if self.balances.contains_key(account) {
            Some(self.balances[account].expiry)
        } else {
            None
        }
    }

    /// Some holder's record still counts at `now`.
    pub open spec fn has_balances(self, now: Timestamp) -> bool {
        exists|account: AccountAddress|
            self.balances.contains_key(account) && #[trigger] self.balances[account].has_balance_at(
                now,
            )
    }

    /// The token after `record` has replaced whatever `account` had.
    pub open spec fn with_balance(
        self,
        account: AccountAddress,
        record: TokenBalanceState,
    ) -> Self {
        TokenStateView { balances: self.balances.insert(account, record), metadata: self.metadata }
    }
}

/// A ledger together with the events that led to it.
pub struct Outcome {
    pub ledger: LedgerView,
    pub events: Seq<ContractEventView>,
}

impl Outcome {
    /// The start of a call: the ledger as found, nothing announced yet.
    pub open spec fn start(ledger: LedgerView) -> Self {
        Outcome { ledger, events: Seq::empty() }
    }
}

/// One request to register a token.
pub struct RegisterRequest {
    pub token_id: ContractTokenId,
    pub metadata_url: MetadataUrlView,
}

/// One request to mint: the token, and the record to install.
pub struct MintRequest {
    pub token_id: ContractTokenId,
    pub record: TokenBalanceState,
}

/// Registers one token.  An identifier that is taken is refused; otherwise
/// the token starts without balances and its metadata is announced.
pub open spec fn register_step(before: Outcome, request: RegisterRequest) -> Result<
    Outcome,
    ContractError,
> {
    if before.ledger.contains_key(request.token_id) {
        Err(ContractError::InvalidTokenId)
    } else {
        Ok(
            Outcome {
                ledger: before.ledger.insert(
                    request.token_id,
                    TokenStateView::fresh(request.metadata_url),
                ),
                events: before.events.push(
                    ContractEventView::TokenMetadata {
                        token_id: request.token_id,
                        metadata_url: request.metadata_url,
                    },
                ),
            },
        )
    }
}

/// Mints one record to `owner` at the instant `now`.  The expiry must lie
/// strictly after `now`, and the token must be registered.  The new record
/// replaces the old one; what the old one still counted at `now` is
/// announced as burnt before the mint is announced.
pub open spec fn mint_step(
    before: Outcome,
    owner: AccountAddress,
    now: Timestamp,
    request: MintRequest,
) -> Result<Outcome, ContractError> {
    if request.record.expiry <= now {
        Err(ContractError::Custom(CustomError::TokenExpired))
    } else if !before.ledger.contains_key(request.token_id) {
        Err(ContractError::InvalidTokenId)
    } else {
        let token = before.ledger[request.token_id];
        let burnt = token.balance_of(owner, now);
        let events = if burnt > 0 {
            before.events.push(
                ContractEventView::Burn {
                    token_id: request.token_id,
                    owner: Address::Account(owner),
                    amount: burnt,
                },
            )
        } else {
            before.events
        };
        Ok(
            Outcome {
                ledger: before.ledger.insert(
                    request.token_id,
                    token.with_balance(owner, request.record),
                ),
                events: events.push(
                    ContractEventView::Mint {
                        token_id: request.token_id,
                        owner: Address::Account(owner),
                        amount: request.record.amount,
                    },
                ),
            },
        )
    }
}

/// Removes one token at the instant `now`.  The token must be registered and
/// no record of it may still count; it then leaves with all its records, and
/// empty metadata is announced for it.
pub open spec fn remove_step(before: Outcome, now: Timestamp, token_id: ContractTokenId) -> Result<
    Outcome,
    ContractError,
> {
    if !before.ledger.contains_key(token_id) {
        Err(ContractError::InvalidTokenId)
    } else if before.ledger[token_id].has_balances(now) {
        Err(ContractError::Custom(CustomError::TokenHasValidBalances))
    } else {
        Ok(
            Outcome {
                ledger: before.ledger.remove(token_id),
                events: before.events.push(
                    ContractEventView::TokenMetadata {
                        token_id,
                        metadata_url: MetadataUrlView::empty(),
                    },
                ),
            },
        )
    }
}

/// Registers the requests in their order, from `start`.
pub open spec fn register_from(start: Outcome, requests: Seq<RegisterRequest>) -> Result<
    Outcome,
    ContractError,
>
    decreases requests.len(),
{
    if requests.len() == 0 {
        Ok(start)
    } else {
        match register_from(start, requests.drop_last()) {
            Ok(before) => register_step(before, requests.last()),
            Err(e) => Err(e),
        }
    }
}

/// Mints the requests in their order, from `start`.
pub open spec fn mint_from(
    start: Outcome,
    owner: AccountAddress,
    now: Timestamp,
    requests: Seq<MintRequest>,
) -> Result<Outcome, ContractError>
    decreases requests.len(),
{
    if requests.len() == 0 {
        Ok(start)
    } else {
        match mint_from(start, owner, now, requests.drop_last()) {
            Ok(before) => mint_step(before, owner, now, requests.last()),
            Err(e) => Err(e),
        }
    }
}

/// Removes the tokens in their order, from `start`.
pub open spec fn remove_from(
    start: Outcome,
    now: Timestamp,
    token_ids: Seq<ContractTokenId>,
) -> Result<Outcome, ContractError>
    decreases token_ids.len(),
{
    if token_ids.len() == 0 {
        Ok(start)
    } else {
        match remove_from(start, now, token_ids.drop_last()) {
            Ok(before) => remove_step(before, now, token_ids.last()),
            Err(e) => Err(e),
        }
    }
}

/// What a call to register `requests` does to `ledger`.
pub open spec fn register_all(ledger: LedgerView, requests: Seq<RegisterRequest>) -> Result<
    Outcome,
    ContractError,
> {
    register_from(Outcome::start(ledger), requests)
}

/// What a call to mint `requests` to `owner` at `now` does to `ledger`.
pub open spec fn mint_all(
    ledger: LedgerView,
    owner: AccountAddress,
    now: Timestamp,
    requests: Seq<MintRequest>,
) -> Result<Outcome, ContractError> {
    mint_from(Outcome::start(ledger), owner, now, requests)
}

/// What a call to remove `token_ids` at `now` does to `ledger`.
pub open spec fn remove_all(
    ledger: LedgerView,
    now: Timestamp,
    token_ids: Seq<ContractTokenId>,
) -> Result<Outcome, ContractError> {
    remove_from(Outcome::start(ledger), now, token_ids)
}

/// What stands before every call that changes the ledger: only the owner's
/// calls reach `body`, and every other sender is refused.
pub open spec fn authorized(ctx: ReceiveContext, body: Result<Outcome, ContractError>) -> Result<
    Outcome,
    ContractError,
> {
    if ctx.sender_is_owner() {
        body
    } else {
        Err(ContractError::Unauthorized)
    }
}

/// An entry point that changes the ledger did what `model` says: on success
/// it leaves the model's ledger and returns the model's events, and on
/// failure it returns the model's error and leaves the ledger as it was.
pub open spec fn call_agrees(
    model: Result<Outcome, ContractError>,
    before: LedgerView,
    after: LedgerView,
    returned: Result<Vec<ContractEvent>, ContractError>,
) -> bool {
    match model {
        Ok(outcome) => returned matches Ok(events) && events_view(events@) == outcome.events
            && after == outcome.ledger,
        Err(e) => returned matches Err(err) && err == e && after == before,
    }
}

/// The answer to one balance query at `now`.  Only accounts hold balances,
/// whatever token is asked for; then the token must be registered.
pub open spec fn balance_answer(
    ledger: LedgerView,
    now: Timestamp,
    query: BalanceOfQuery,
) -> Result<ContractTokenAmount, ContractError> {
    match query.address {
        Address::Contract(_) => Err(ContractError::Custom(CustomError::AccountsOnly)),
        Address::Account(account) => if ledger.contains_key(query.token_id) {
            Ok(ledger[query.token_id].balance_of(account, now))
        } else {
            Err(ContractError::InvalidTokenId)
        },
    }
}

/// The answer to one expiry query.  Only accounts hold balances, whatever
/// token is asked for; then the token must be registered.
pub open spec fn expiry_answer(ledger: LedgerView, query: BalanceOfQuery) -> Result<
    Option<Timestamp>,
    ContractError,
> {
    match query.address {
        Address::Contract(_) => Err(ContractError::Custom(CustomError::AccountsOnly)),
        Address::Account(account) => if ledger.contains_key(query.token_id) {
            Ok(ledger[query.token_id].expiry_of(account))
        } else {
            Err(ContractError::InvalidTokenId)
        },
    }
}

/// The answer to one metadata query: the token must be registered.
pub open spec fn metadata_answer(ledger: LedgerView, token_id: ContractTokenId) -> Result<
    MetadataUrlView,
    ContractError,
> {
    if ledger.contains_key(token_id) {
        Ok(ledger[token_id].metadata)
    } else {
        Err(ContractError::InvalidTokenId)
    }
}

/// The answer to each balance query at `now`, in the order of the queries.
pub open spec fn balance_answers(
    ledger: LedgerView,
    now: Timestamp,
    queries: Seq<BalanceOfQuery>,
) -> Seq<Result<ContractTokenAmount, ContractError>> {
    Seq::new(queries.len(), |i: int| balance_answer(ledger, now, queries[i]))
}

/// The answer to each expiry query, in the order of the queries.
pub open spec fn expiry_answers(ledger: LedgerView, queries: Seq<BalanceOfQuery>) -> Seq<
    Result<Option<Timestamp>, ContractError>,
> {
    Seq::new(queries.len(), |i: int| expiry_answer(ledger, queries[i]))
}

/// The answer to each metadata query, in the order of the queries.
pub open spec fn metadata_answers(ledger: LedgerView, token_ids: Seq<ContractTokenId>) -> Seq<
    Result<MetadataUrlView, ContractError>,
> {
    Seq::new(token_ids.len(), |i: int| metadata_answer(ledger, token_ids[i]))
}

/// The query at `i` is the first that fails, and it fails with `error`.
pub open spec fn first_failure<T>(
    answers: Seq<Result<T, ContractError>>,
    i: int,
    error: ContractError,
) -> bool {
    &&& 0 <= i < answers.len()
    &&& answers[i] == Err::<T, ContractError>(error)
    &&& forall|j: int| 0 <= j < i ==> (#[trigger] answers[j]) is Ok
}

/// A batch of queries was answered as its single `answers` demand: with
/// every value in the order of the queries if none fails, and else with the
/// error of the first that fails.
pub open spec fn batch_agrees<T>(
    answers: Seq<Result<T, ContractError>>,
    returned: Result<Seq<T>, ContractError>,
) -> bool {
    match returned {
        Ok(values) => values.len() == answers.len() && forall|i: int|
            0 <= i < answers.len() ==> (#[trigger] answers[i]) == Ok::<T, ContractError>(values[i]),
        Err(error) => exists|i: int| first_failure(answers, i, error),
    }
}

} // verus!
