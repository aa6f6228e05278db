//! What follows from the model: when a batch is refused and with which
//! error, what an accepted batch leaves behind, and how balances read
//! before and after their expiry.

use crate::errors::CustomError;
use crate::model::{
    balance_answer, expiry_answer, mint_all, mint_from, mint_step, register_all, register_from,
    register_step, remove_all, remove_from, remove_step, LedgerView, MintRequest, Outcome,
    RegisterRequest, TokenStateView,
};
use crate::state::TokenBalanceState;
use crate::types::{
    AccountAddress, Address, BalanceOfQuery, ContractError, ContractEventView, ContractTokenId,
    MetadataUrlView, Timestamp,
};
use vstd::prelude::*;

verus! {

/// A batch of registrations that fails at some request fails the same way
/// however many requests follow.
pub proof fn lemma_register_error_is_final(start: Outcome, requests: Seq<RegisterRequest>, k: int)
    requires
        0 <= k <= requests.len(),
        register_from(start, requests.take(k)) is Err,
    ensures
        register_from(start, requests) == register_from(start, requests.take(k)),
    decreases requests.len() - k,
{
    if k == requests.len() {
        assert(requests.take(k) =~= requests);
    } else {
        assert(requests.drop_last().take(k) =~= requests.take(k));
        lemma_register_error_is_final(start, requests.drop_last(), k);
    }
}

/// A batch of mints that fails at some request fails the same way however
/// many requests follow.
pub proof fn lemma_mint_error_is_final(
    start: Outcome,
    owner: AccountAddress,
    now: Timestamp,
    requests: Seq<MintRequest>,
    k: int,
)
    requires
        0 <= k <= requests.len(),
        mint_from(start, owner, now, requests.take(k)) is Err,
    ensures
        mint_from(start, owner, now, requests) == mint_from(start, owner, now, requests.take(k)),
    decreases requests.len() - k,
{
    if k == requests.len() {
        assert(requests.take(k) =~= requests);
    } else {
        assert(requests.drop_last().take(k) =~= requests.take(k));
        lemma_mint_error_is_final(start, owner, now, requests.drop_last(), k);
    }
}

/// A batch of removals that fails at some token fails the same way however
/// many tokens follow.
pub proof fn lemma_remove_error_is_final(
    start: Outcome,
    now: Timestamp,
    token_ids: Seq<ContractTokenId>,
    k: int,
)
    requires
        0 <= k <= token_ids.len(),
        remove_from(start, now, token_ids.take(k)) is Err,
    ensures
        remove_from(start, now, token_ids) == remove_from(start, now, token_ids.take(k)),
    decreases token_ids.len() - k,
{
    if k == token_ids.len() {
        assert(token_ids.take(k) =~= token_ids);
    } else {
        assert(token_ids.drop_last().take(k) =~= token_ids.take(k));
        lemma_remove_error_is_final(start, now, token_ids.drop_last(), k);
    }
}

/// The request at `i` names an identifier that is taken when its turn
/// comes: the ledger has it, or an earlier request of the batch does.
pub open spec fn register_refused(
    ledger: LedgerView,
    requests: Seq<RegisterRequest>,
    i: int,
) -> bool {
    ledger.contains_key(requests[i].token_id) || exists|j: int|
        0 <= j < i && (#[trigger] requests[j]).token_id == requests[i].token_id
}

/// The announcement of a registered token's metadata.
pub open spec fn announced(request: RegisterRequest) -> ContractEventView {
    ContractEventView::TokenMetadata {
        token_id: request.token_id,
        metadata_url: request.metadata_url,
    }
}

/// What registering the first `n` requests comes to.
proof fn lemma_register_prefix(ledger: LedgerView, requests: Seq<RegisterRequest>, n: int)
    requires
        0 <= n <= requests.len(),
    ensures
        match register_from(Outcome::start(ledger), requests.take(n)) {
            Ok(outcome) => {
                &&& forall|i: int| 0 <= i < n ==> !register_refused(ledger, requests, i)
                &&& forall|k: ContractTokenId| #[trigger]
                    outcome.ledger.contains_key(k) <==> ledger.contains_key(k) || exists|i: int|
                        0 <= i < n && (#[trigger] requests[i]).token_id == k
                &&& forall|k: ContractTokenId|
                    ledger.contains_key(k) ==> #[trigger] outcome.ledger[k] == ledger[k]
                &&& forall|i: int|
                    0 <= i < n ==> outcome.ledger[(#[trigger] requests[i]).token_id]
                        == TokenStateView::fresh(requests[i].metadata_url)
                &&& outcome.events == Seq::new(n as nat, |i: int| announced(requests[i]))
            },
            Err(e) => {
                &&& e == ContractError::InvalidTokenId
                &&& exists|i: int|
                    0 <= i < n && #[trigger] register_refused(ledger, requests, i) && forall|j: int|
                        0 <= j < i ==> !register_refused(ledger, requests, j)
            },
        },
    decreases n,
{
    if n > 0 {
        lemma_register_prefix(ledger, requests, n - 1);
        assert(requests.take(n).drop_last() =~= requests.take(n - 1));
        if let Ok(before) = register_from(Outcome::start(ledger), requests.take(n - 1)) {
            let request = requests[n - 1];
            if before.ledger.contains_key(request.token_id) {
                assert(register_refused(ledger, requests, n - 1));
            } else {
                let outcome = register_step(before, request)->Ok_0;
                assert forall|k: ContractTokenId| #[trigger]
                    outcome.ledger.contains_key(k) <==> ledger.contains_key(k) || exists|i: int|
                        0 <= i < n && (#[trigger] requests[i]).token_id == k by {}
            }
        }
    }
}

/// A batch of registrations, in closed form.
///
/// It is accepted exactly if no request names an identifier that the ledger
/// has or that an earlier request names.  Then every token of the ledger is
/// as it was, every requested token is there without balances and with its
/// metadata, and the metadata are announced in the order of the requests.
/// It is refused only with `InvalidTokenId`.
pub proof fn lemma_register_outcome(ledger: LedgerView, requests: Seq<RegisterRequest>)
    ensures
        match register_all(ledger, requests) {
            Ok(outcome) => {
                &&& forall|i: int|
                    0 <= i < requests.len() ==> !register_refused(ledger, requests, i)
                &&& forall|k: ContractTokenId| #[trigger]
                    outcome.ledger.contains_key(k) <==> ledger.contains_key(k) || exists|i: int|
                        0 <= i < requests.len() && (#[trigger] requests[i]).token_id == k
                &&& forall|k: ContractTokenId|
                    ledger.contains_key(k) ==> #[trigger] outcome.ledger[k] == ledger[k]
                &&& forall|i: int|
                    0 <= i < requests.len() ==> outcome.ledger[(#[trigger] requests[i]).token_id]
                        == TokenStateView::fresh(requests[i].metadata_url)
                &&& outcome.events == Seq::new(requests.len(), |i: int| announced(requests[i]))
            },
            Err(e) => {
                &&& e == ContractError::InvalidTokenId
                &&& exists|i: int|
                    0 <= i < requests.len() && #[trigger] register_refused(ledger, requests, i)
                        && forall|j: int| 0 <= j < i ==> !register_refused(ledger, requests, j)
            },
        },
{
    lemma_register_prefix(ledger, requests, requests.len() as int);
    assert(requests.take(requests.len() as int) =~= requests);
}

/// Registering an identifier that the ledger has fails with
/// `InvalidTokenId`, whatever else the batch holds.
pub proof fn lemma_register_existing_fails(
    ledger: LedgerView,
    requests: Seq<RegisterRequest>,
    i: int,
)
    requires
        0 <= i < requests.len(),
        ledger.contains_key(requests[i].token_id),
    ensures
        register_all(ledger, requests) == Err::<Outcome, ContractError>(
            ContractError::InvalidTokenId,
        ),
{
    lemma_register_outcome(ledger, requests);
    assert(register_refused(ledger, requests, i));
}

/// Why a request to mint is refused on `ledger` at `now`, if it is: its
/// expiry is not after `now`, or else its token is not registered.
pub open spec fn mint_refusal(ledger: LedgerView, now: Timestamp, request: MintRequest) -> Option<
    ContractError,
> {
    if request.record.expiry <= now {
        Some(ContractError::Custom(CustomError::TokenExpired))
    } else if !ledger.contains_key(request.token_id) {
        Some(ContractError::InvalidTokenId)
    } else {
        None
    }
}

/// The record of the last request that names the token `k`, if one does.
pub open spec fn minted_record(requests: Seq<MintRequest>, k: ContractTokenId) -> Option<
    TokenBalanceState,
>
    decreases requests.len(),
{
    if requests.len() == 0 {
        None
    } else if requests.last().token_id == k {
        Some(requests.last().record)
    } else {
        minted_record(requests.drop_last(), k)
    }
}

/// A token after a batch of mints to `owner` that leaves it `record`.
pub open spec fn token_after_mints(
    token: TokenStateView,
    owner: AccountAddress,
    record: Option<TokenBalanceState>,
) -> TokenStateView {
    match record {
        Some(r) => token.with_balance(owner, r),
        None => token,
    }
}

/// The request at `i` is the first of the batch that is refused on `ledger`
/// at `now`, and `error` is why.
pub open spec fn mint_refused_first_at(
    ledger: LedgerView,
    now: Timestamp,
    requests: Seq<MintRequest>,
    i: int,
    error: ContractError,
) -> bool {
    &&& 0 <= i < requests.len()
    &&& mint_refusal(ledger, now, requests[i]) == Some(error)
    &&& forall|j: int| 0 <= j < i ==> mint_refusal(ledger, now, #[trigger] requests[j]) is None
}

/// Whether the first `n` requests are accepted, and which tokens they leave.
proof fn lemma_mint_prefix_accepted(
    ledger: LedgerView,
    owner: AccountAddress,
    now: Timestamp,
    requests: Seq<MintRequest>,
    n: int,
)
    requires
        0 <= n <= requests.len(),
    ensures
        match mint_from(Outcome::start(ledger), owner, now, requests.take(n)) {
            Ok(outcome) => {
                &&& forall|i: int|
                    0 <= i < n ==> mint_refusal(ledger, now, #[trigger] requests[i]) is None
                &&& outcome.ledger.dom() == ledger.dom()
            },
            Err(e) => exists|i: int|
                i < n && #[trigger] mint_refused_first_at(ledger, now, requests, i, e),
        },
    decreases n,
{
    if n > 0 {
        lemma_mint_prefix_accepted(ledger, owner, now, requests, n - 1);
        assert(requests.take(n).drop_last() =~= requests.take(n - 1));
        if let Ok(before) = mint_from(Outcome::start(ledger), owner, now, requests.take(n - 1)) {
            if let Err(e) = mint_step(before, owner, now, requests[n - 1]) {
                assert(mint_refused_first_at(ledger, now, requests, n - 1, e));
            }
        }
    }
}

/// When a batch of mints is accepted.
///
/// It is refused at the first request that is refused on the ledger as the
/// call found it, and with that request's error; it is accepted if there is
/// none, and then the ledger has the tokens it had.
pub proof fn lemma_mint_outcome(
    ledger: LedgerView,
    owner: AccountAddress,
    now: Timestamp,
    requests: Seq<MintRequest>,
)
    ensures
        match mint_all(ledger, owner, now, requests) {
            Ok(outcome) => {
                &&& forall|i: int|
                    0 <= i < requests.len() ==> mint_refusal(ledger, now, #[trigger] requests[i])
                        is None
                &&& outcome.ledger.dom() == ledger.dom()
            },
            Err(e) => exists|i: int| #[trigger] mint_refused_first_at(ledger, now, requests, i, e),
        },
{
    lemma_mint_prefix_accepted(ledger, owner, now, requests, requests.len() as int);
    assert(requests.take(requests.len() as int) =~= requests);
}

/// What the first `n` requests, if accepted, leave of every token.
proof fn lemma_mint_prefix_effect(
    ledger: LedgerView,
    owner: AccountAddress,
    now: Timestamp,
    requests: Seq<MintRequest>,
    n: int,
)
    requires
        0 <= n <= requests.len(),
    ensures
        mint_from(Outcome::start(ledger), owner, now, requests.take(n)) matches Ok(outcome)
            ==> forall|k: ContractTokenId|
            ledger.contains_key(k) ==> #[trigger] outcome.ledger[k] == token_after_mints(
                ledger[k],
                owner,
                minted_record(requests.take(n), k),
            ),
    decreases n,
{
    let start = Outcome::start(ledger);
    if n > 0 {
        lemma_mint_prefix_effect(ledger, owner, now, requests, n - 1);
        lemma_mint_prefix_accepted(ledger, owner, now, requests, n - 1);
        assert(requests.take(n).drop_last() =~= requests.take(n - 1));
        if let Ok(outcome) = mint_from(start, owner, now, requests.take(n)) {
            let before = mint_from(start, owner, now, requests.take(n - 1))->Ok_0;
            let request = requests[n - 1];
            assert forall|k: ContractTokenId| ledger.contains_key(k) implies #[trigger]
                outcome.ledger[k] == token_after_mints(
                ledger[k],
                owner,
                minted_record(requests.take(n), k),
            ) by {
                if k == request.token_id {
                    // Whatever the earlier requests left the owner is replaced.
                    assert(before.ledger[k].balances.insert(owner, request.record)
                        =~= ledger[k].balances.insert(owner, request.record));
                }
            }
        }
    }
}

/// What an accepted batch of mints leaves of every token: the token as it
/// was, but that `owner` has the record of the last request that names the
/// token, if one does.
pub proof fn lemma_mint_effect(
    ledger: LedgerView,
    owner: AccountAddress,
    now: Timestamp,
    requests: Seq<MintRequest>,
)
    ensures
        mint_all(ledger, owner, now, requests) matches Ok(outcome) ==> forall|k: ContractTokenId|
            ledger.contains_key(k) ==> #[trigger] outcome.ledger[k] == token_after_mints(
                ledger[k],
                owner,
                minted_record(requests, k),
            ),
{
    lemma_mint_prefix_effect(ledger, owner, now, requests, requests.len() as int);
    assert(requests.take(requests.len() as int) =~= requests);
}

/// A batch with a request whose expiry is not after the instant of the call
/// is refused.  It is refused with `TokenExpired` where every request before
/// that one names a registered token.
pub proof fn lemma_mint_expired_fails(
    ledger: LedgerView,
    owner: AccountAddress,
    now: Timestamp,
    requests: Seq<MintRequest>,
    i: int,
)
    requires
        0 <= i < requests.len(),
        requests[i].record.expiry <= now,
    ensures
        mint_all(ledger, owner, now, requests) is Err,
        (forall|j: int| 0 <= j < i ==> ledger.contains_key((#[trigger] requests[j]).token_id))
            ==> mint_all(ledger, owner, now, requests) == Err::<Outcome, ContractError>(
            ContractError::Custom(CustomError::TokenExpired),
        ),
{
    lemma_mint_outcome(ledger, owner, now, requests);
    assert(mint_refusal(ledger, now, requests[i]) is Some);
    if forall|j: int| 0 <= j < i ==> ledger.contains_key((#[trigger] requests[j]).token_id) {
        // The first request that is refused stands at `i` or before it, where
        // every token is registered: it is refused for its expiry.
        let e = mint_all(ledger, owner, now, requests)->Err_0;
        let f = choose|f: int| #[trigger] mint_refused_first_at(ledger, now, requests, f, e);
        assert(f <= i);
    }
}

/// A batch that names a token that is not registered is refused.  It is
/// refused with `InvalidTokenId` where no request up to that one has an
/// expiry that is not after the instant of the call.
pub proof fn lemma_mint_unregistered_fails(
    ledger: LedgerView,
    owner: AccountAddress,
    now: Timestamp,
    requests: Seq<MintRequest>,
    i: int,
)
    requires
        0 <= i < requests.len(),
        !ledger.contains_key(requests[i].token_id),
    ensures
        mint_all(ledger, owner, now, requests) is Err,
        (forall|j: int| 0 <= j <= i ==> (#[trigger] requests[j]).record.expiry > now) ==> mint_all(
            ledger,
            owner,
            now,
            requests,
        ) == Err::<Outcome, ContractError>(ContractError::InvalidTokenId),
{
    lemma_mint_outcome(ledger, owner, now, requests);
    assert(mint_refusal(ledger, now, requests[i]) is Some);
    if forall|j: int| 0 <= j <= i ==> (#[trigger] requests[j]).record.expiry > now {
        // The first request that is refused stands at `i` or before it, where
        // no expiry has passed: it is refused for its token.
        let e = mint_all(ledger, owner, now, requests)->Err_0;
        let f = choose|f: int| #[trigger] mint_refused_first_at(ledger, now, requests, f, e);
        assert(f <= i);
    }
}

/// Why the token at `i` of a batch of removals is refused on `ledger` at
/// `now`, if it is: it is not registered when its turn comes, because the
/// ledger lacks it or an earlier removal of the batch took it, or else one
/// of its balances still counts.
pub open spec fn remove_refusal(
    ledger: LedgerView,
    now: Timestamp,
    token_ids: Seq<ContractTokenId>,
    i: int,
) -> Option<ContractError> {
    if !ledger.contains_key(token_ids[i]) || exists|j: int|
        0 <= j < i && #[trigger] token_ids[j] == token_ids[i] {
        Some(ContractError::InvalidTokenId)
    } else if ledger[token_ids[i]].has_balances(now) {
        Some(ContractError::Custom(CustomError::TokenHasValidBalances))
    } else {
        None
    }
}

/// The token at `i` is the first of the batch that is refused on `ledger`
/// at `now`, and `error` is why.
pub open spec fn remove_refused_first_at(
    ledger: LedgerView,
    now: Timestamp,
    token_ids: Seq<ContractTokenId>,
    i: int,
    error: ContractError,
) -> bool {
    &&& 0 <= i < token_ids.len()
    &&& remove_refusal(ledger, now, token_ids, i) == Some(error)
    &&& forall|j: int| 0 <= j < i ==> #[trigger] remove_refusal(ledger, now, token_ids, j) is None
}

/// The announcement that a token's metadata is retracted.
pub open spec fn cleared(token_id: ContractTokenId) -> ContractEventView {
    ContractEventView::TokenMetadata { token_id, metadata_url: MetadataUrlView::empty() }
}

/// What removing the first `n` tokens comes to.
proof fn lemma_remove_prefix(
    ledger: LedgerView,
    now: Timestamp,
    token_ids: Seq<ContractTokenId>,
    n: int,
)
    requires
        0 <= n <= token_ids.len(),
    ensures
        match remove_from(Outcome::start(ledger), now, token_ids.take(n)) {
            Ok(outcome) => {
                &&& forall|i: int|
                    0 <= i < n ==> #[trigger] remove_refusal(ledger, now, token_ids, i) is None
                &&& forall|k: ContractTokenId| #[trigger]
                    outcome.ledger.contains_key(k) <==> ledger.contains_key(k) && !exists|i: int|
                        0 <= i < n && #[trigger] token_ids[i] == k
                &&& forall|k: ContractTokenId|
                    outcome.ledger.contains_key(k) ==> #[trigger] outcome.ledger[k] == ledger[k]
                &&& outcome.events == Seq::new(n as nat, |i: int| cleared(token_ids[i]))
            },
            Err(e) => exists|i: int|
                i < n && #[trigger] remove_refused_first_at(ledger, now, token_ids, i, e),
        },
    decreases n,
{
    if n > 0 {
        lemma_remove_prefix(ledger, now, token_ids, n - 1);
        assert(token_ids.take(n).drop_last() =~= token_ids.take(n - 1));
        if let Ok(before) = remove_from(Outcome::start(ledger), now, token_ids.take(n - 1)) {
            match remove_step(before, now, token_ids[n - 1]) {
                Ok(outcome) => {
                    assert forall|k: ContractTokenId| #[trigger]
                        outcome.ledger.contains_key(k) <==> ledger.contains_key(k) && !exists|
                            i: int,
                        |
                            0 <= i < n && #[trigger] token_ids[i] == k by {}
                },
                Err(e) => {
                    assert(remove_refused_first_at(ledger, now, token_ids, n - 1, e));
                },
            }
        }
    }
}

/// A batch of removals, in closed form.
///
/// It is refused at the first token that is refused, and with that token's
/// error; it is accepted if there is none.  Then the ledger has lost exactly
/// the tokens named, with all their records, every other token is as it
/// was, and empty metadata is announced for each token in the order of the
/// batch.
pub proof fn lemma_remove_outcome(
    ledger: LedgerView,
    now: Timestamp,
    token_ids: Seq<ContractTokenId>,
)
    ensures
        match remove_all(ledger, now, token_ids) {
            Ok(outcome) => {
                &&& forall|i: int|
                    0 <= i < token_ids.len() ==> #[trigger] remove_refusal(
                        ledger,
                        now,
                        token_ids,
                        i,
                    ) is None
                &&& outcome.ledger == ledger.remove_keys(token_ids.to_set())
                &&& outcome.events == Seq::new(token_ids.len(), |i: int| cleared(token_ids[i]))
            },
            Err(e) => exists|i: int| #[trigger]
                remove_refused_first_at(ledger, now, token_ids, i, e),
        },
{
    lemma_remove_prefix(ledger, now, token_ids, token_ids.len() as int);
    assert(token_ids.take(token_ids.len() as int) =~= token_ids);
    if let Ok(outcome) = remove_all(ledger, now, token_ids) {
        assert forall|k: ContractTokenId|
            token_ids.to_set().contains(k) <==> exists|i: int|
                0 <= i < token_ids.len() && #[trigger] token_ids[i] == k by {
            if token_ids.to_set().contains(k) {
                assert(token_ids.contains(k));
            }
        }
        assert(outcome.ledger =~= ledger.remove_keys(token_ids.to_set()));
    }
}

/// A batch that names a registered token with a balance that counts is
/// refused.  It is refused with `TokenHasValidBalances` where no token
/// before that one is refused, and none of them is that one.
pub proof fn lemma_remove_with_balances_fails(
    ledger: LedgerView,
    now: Timestamp,
    token_ids: Seq<ContractTokenId>,
    i: int,
)
    requires
        0 <= i < token_ids.len(),
        ledger.contains_key(token_ids[i]),
        ledger[token_ids[i]].has_balances(now),
    ensures
        remove_all(ledger, now, token_ids) is Err,
        (forall|j: int|
            0 <= j < i ==> #[trigger] remove_refusal(ledger, now, token_ids, j) is None
                && token_ids[j] != token_ids[i]) ==> remove_all(ledger, now, token_ids) == Err::<
            Outcome,
            ContractError,
        >(ContractError::Custom(CustomError::TokenHasValidBalances)),
{
    lemma_remove_outcome(ledger, now, token_ids);
    assert(remove_refusal(ledger, now, token_ids, i) is Some);
    if forall|j: int|
        0 <= j < i ==> #[trigger] remove_refusal(ledger, now, token_ids, j) is None && token_ids[j]
            != token_ids[i] {
        // The first token that is refused stands at `i`: none before it
        // is refused, and `i` is.
        let e = remove_all(ledger, now, token_ids)->Err_0;
        let f = choose|f: int| #[trigger] remove_refused_first_at(ledger, now, token_ids, f, e);
        if f < i {
            assert(remove_refusal(ledger, now, token_ids, f) is None);
        }
        assert(f == i);
        // It is registered and no earlier removal took it: it is refused
        // for its balances.
        assert forall|j: int| 0 <= j < i implies #[trigger] token_ids[j] != token_ids[i] by {
            assert(remove_refusal(ledger, now, token_ids, j) is None);
        }
    }
}

/// Removing one token: refused with `InvalidTokenId` if it is not
/// registered, with `TokenHasValidBalances` if one of its balances counts at
/// `now`, and else accepted, after which the token is gone with all its
/// records.
pub proof fn lemma_remove_one(ledger: LedgerView, now: Timestamp, token_id: ContractTokenId)
    ensures
        remove_all(ledger, now, seq![token_id]) == if !ledger.contains_key(token_id) {
            Err::<Outcome, ContractError>(ContractError::InvalidTokenId)
        } else if ledger[token_id].has_balances(now) {
            Err(ContractError::Custom(CustomError::TokenHasValidBalances))
        } else {
            Ok(Outcome { ledger: ledger.remove(token_id), events: seq![cleared(token_id)] })
        },
{
    let token_ids = seq![token_id];
    let start = Outcome::start(ledger);
    assert(remove_from(start, now, token_ids.drop_last()) == Ok::<Outcome, ContractError>(start));
    assert(remove_all(ledger, now, token_ids) == remove_step(start, now, token_id));
}

/// A token none of whose records counts at some instant has none that
/// counts at any later instant: once it can be removed, passing time does
/// not take that away.
pub proof fn lemma_no_balances_later(token: TokenStateView, now: Timestamp, later: Timestamp)
    requires
        !token.has_balances(now),
        now <= later,
    ensures
        !token.has_balances(later),
{
    if token.has_balances(later) {
        let account = choose|account: AccountAddress|
            token.balances.contains_key(account)
                && #[trigger] token.balances[account].has_balance_at(later);
        assert(token.balances[account].has_balance_at(now));
    }
}

/// A token all of whose records have expired, or hold nothing, has no
/// balance that counts.
pub proof fn lemma_expired_records_do_not_count(token: TokenStateView, now: Timestamp)
    requires
        forall|account: AccountAddress|
            token.balances.contains_key(account) ==> (#[trigger] token.balances[account]).expiry
                <= now || token.balances[account].amount == 0,
    ensures
        !token.has_balances(now),
{
    if token.has_balances(now) {
        let account = choose|account: AccountAddress|
            token.balances.contains_key(account)
                && #[trigger] token.balances[account].has_balance_at(now);
        assert(token.balances[account].expiry <= now || token.balances[account].amount == 0);
    }
}

/// Removing a token of which some holder has a balance that counts fails
/// with `TokenHasValidBalances`.
pub proof fn lemma_remove_active_fails(
    ledger: LedgerView,
    now: Timestamp,
    token_id: ContractTokenId,
    account: AccountAddress,
)
    requires
        ledger.contains_key(token_id),
        ledger[token_id].balances.contains_key(account),
        ledger[token_id].balances[account].has_balance_at(now),
    ensures
        remove_all(ledger, now, seq![token_id]) == Err::<Outcome, ContractError>(
            ContractError::Custom(CustomError::TokenHasValidBalances),
        ),
{
    lemma_remove_one(ledger, now, token_id);
}

/// Removing a registered token all of whose records have expired, or hold
/// nothing, succeeds: the token leaves the ledger with all its records, and
/// empty metadata is announced for it.
pub proof fn lemma_remove_expired_succeeds(
    ledger: LedgerView,
    now: Timestamp,
    token_id: ContractTokenId,
)
    requires
        ledger.contains_key(token_id),
        forall|account: AccountAddress|
            ledger[token_id].balances.contains_key(account) ==> (
            #[trigger] ledger[token_id].balances[account]).expiry <= now
                || ledger[token_id].balances[account].amount == 0,
    ensures
        remove_all(ledger, now, seq![token_id]) == Ok::<Outcome, ContractError>(
            Outcome { ledger: ledger.remove(token_id), events: seq![cleared(token_id)] },
        ),
{
    lemma_remove_one(ledger, now, token_id);
    lemma_expired_records_do_not_count(ledger[token_id], now);
}

/// The query for what `account` has of `token_id`.
pub open spec fn account_query(
    token_id: ContractTokenId,
    account: AccountAddress,
) -> BalanceOfQuery {
    BalanceOfQuery { token_id, address: Address::Account(account) }
}

/// A holder without a record of a registered token reads as holding
/// nothing: the balance is zero at every instant and there is no expiry,
/// and neither query fails.
pub proof fn lemma_no_record_reads_empty(
    ledger: LedgerView,
    token_id: ContractTokenId,
    account: AccountAddress,
    now: Timestamp,
)
    requires
        ledger.contains_key(token_id),
        !ledger[token_id].balances.contains_key(account),
    ensures
        balance_answer(ledger, now, account_query(token_id, account)) == Ok::<u16, ContractError>(
            0,
        ),
        expiry_answer(ledger, account_query(token_id, account)) == Ok::<
            Option<Timestamp>,
            ContractError,
        >(None),
{
}

/// A balance whose expiry has passed reads as zero, while its expiry is
/// still reported as it was recorded.
pub proof fn lemma_expired_balance_reads_zero(
    ledger: LedgerView,
    token_id: ContractTokenId,
    account: AccountAddress,
    later: Timestamp,
)
    requires
        ledger.contains_key(token_id),
        ledger[token_id].balances.contains_key(account),
        ledger[token_id].balances[account].expiry <= later,
    ensures
        balance_answer(ledger, later, account_query(token_id, account)) == Ok::<u16, ContractError>(
            0,
        ),
        expiry_answer(ledger, account_query(token_id, account)) == Ok::<
            Option<Timestamp>,
            ContractError,
        >(Some(ledger[token_id].balances[account].expiry)),
{
}

/// A batch of one mint is that one step.
pub proof fn lemma_mint_one(
    ledger: LedgerView,
    owner: AccountAddress,
    now: Timestamp,
    request: MintRequest,
)
    ensures
        mint_all(ledger, owner, now, seq![request]) == mint_step(
            Outcome::start(ledger),
            owner,
            now,
            request,
        ),
{
    let requests = seq![request];
    let start = Outcome::start(ledger);
    assert(mint_from(start, owner, now, requests.drop_last()) == Ok::<Outcome, ContractError>(
        start,
    ));
}

/// After a mint, the holder reads the minted amount at every instant before
/// the expiry and zero from the expiry on, and the expiry reads as minted
/// at every instant.
pub proof fn lemma_minted_balance_reads(
    ledger: LedgerView,
    owner: AccountAddress,
    now: Timestamp,
    request: MintRequest,
    at: Timestamp,
)
    requires
        ledger.contains_key(request.token_id),
        request.record.expiry > now,
    ensures
        mint_all(ledger, owner, now, seq![request]) matches Ok(outcome) && balance_answer(
            outcome.ledger,
            at,
            account_query(request.token_id, owner),
        ) == Ok::<u16, ContractError>(
            if at < request.record.expiry {
                request.record.amount
            } else {
                0
            },
        ) && expiry_answer(outcome.ledger, account_query(request.token_id, owner)) == Ok::<
            Option<Timestamp>,
            ContractError,
        >(Some(request.record.expiry)),
{
    lemma_mint_one(ledger, owner, now, request);
}

/// Minting again to a holder replaces the record: nothing of the first
/// amount is added to the second.  If the first record still counts at the
/// second mint, its amount is announced as burnt and then the mint is
/// announced; if it has expired, or held nothing, only the mint is.
pub proof fn lemma_remint_replaces(
    ledger: LedgerView,
    owner: AccountAddress,
    token_id: ContractTokenId,
    first: TokenBalanceState,
    first_at: Timestamp,
    second: TokenBalanceState,
    second_at: Timestamp,
)
    requires
        ledger.contains_key(token_id),
        first.expiry > first_at,
        second.expiry > second_at,
    ensures
        mint_all(ledger, owner, first_at, seq![MintRequest { token_id, record: first }])
            matches Ok(between) && mint_all(
            between.ledger,
            owner,
            second_at,
            seq![MintRequest { token_id, record: second }],
        ) matches Ok(outcome) && outcome.ledger.contains_key(token_id)
            && outcome.ledger[token_id].balances.get(owner) == Some(second)
            && outcome.events == if first.has_balance_at(second_at) {
            seq![
                ContractEventView::Burn {
                    token_id,
                    owner: Address::Account(owner),
                    amount: first.amount,
                },
                ContractEventView::Mint {
                    token_id,
                    owner: Address::Account(owner),
                    amount: second.amount,
                },
            ]
        } else {
            seq![
                ContractEventView::Mint {
                    token_id,
                    owner: Address::Account(owner),
                    amount: second.amount,
                },
            ]
        },
{
    lemma_mint_one(ledger, owner, first_at, MintRequest { token_id, record: first });
    let between = mint_all(
        ledger,
        owner,
        first_at,
        seq![MintRequest { token_id, record: first }],
    )->Ok_0;
    lemma_mint_one(between.ledger, owner, second_at, MintRequest { token_id, record: second });
}

} // verus!
