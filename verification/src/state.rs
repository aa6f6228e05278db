//! The ledger: registered tokens, and each holder's expiring balance.

use crate::model::{LedgerView, TokenStateView};
use crate::types::{
    AccountAddress, ContractError, ContractResult, ContractTokenAmount, ContractTokenId,
    MetadataUrl, Timestamp,
};
use std::collections::HashMap;
use vstd::prelude::*;

verus! {

broadcast use vstd::std_specs::hash::group_hash_axioms;

/// What one holder has of one token: a quantity, and the instant from which
/// it no longer counts.
#[derive(Clone, Copy, Debug, PartialEq, Eq, Structural)]
pub struct TokenBalanceState {
    pub amount: ContractTokenAmount,
    pub expiry: Timestamp,
}

impl TokenBalanceState {
    /// The amount that counts at `now`.
    pub open spec fn balance_at(self, now: Timestamp) -> ContractTokenAmount {
        if self.expiry > now {
            self.amount
        } else {
            0
        }
    }

    /// Something of this record counts at `now`.
    pub open spec fn has_balance_at(self, now: Timestamp) -> bool {
        self.balance_at(now) > 0
    }

    /// Checks if the record holds a balance at the given time.
    pub fn has_balance(&self, now: Timestamp) -> (r: bool)
        ensures
            r == self.has_balance_at(now),
    {
        let balance = self.get_balance(now);
        balance > 0
    }

    /// Gets the balance of the record: zero once it has expired.
    pub fn get_balance(&self, now: Timestamp) -> (r: ContractTokenAmount)
        ensures
            r == self.balance_at(now),
    {
        if self.expiry > now {
            self.amount
        } else {
            0
        }
    }
}

/// One holder's entry in the balances of a token.
#[derive(Debug)]
struct HolderBalance {
    owner: AccountAddress,
    balance: TokenBalanceState,
}

/// One registered token: its metadata and the record of each holder.
///
/// No holder has two records.
#[derive(Debug)]
pub struct TokenState {
    balances: Vec<HolderBalance>,
    metadata: MetadataUrl,
}

impl View for TokenState {
    type V = TokenStateView;

    closed spec fn view(&self) -> TokenStateView {
        TokenStateView {
            balances: Map::new(
                |account: AccountAddress| self.holds(account),
                |account: AccountAddress| self.balances[self.index_of(account)].balance,
            ),
            metadata: self.metadata@,
        }
    }
}

impl TokenState {
    #[verifier::type_invariant]
    spec fn distinct_holders(self) -> bool {
        forall|i: int, j: int|
            0 <= i < j < self.balances.len() ==> self.balances[i].owner != self.balances[j].owner
    }

    /// The entry at `i` is that of `account`.
    spec fn entry_of(self, account: AccountAddress, i: int) -> bool {
        0 <= i < self.balances.len() && self.balances[i].owner == account
    }

    /// `account` has a record.
    spec fn holds(self, account: AccountAddress) -> bool {
        exists|i: int| self.entry_of(account, i)
    }

    /// Where the record of `account` stands.
    spec fn index_of(self, account: AccountAddress) -> int {
        choose|i: int| self.entry_of(account, i)
    }

    /// A token without balances.
    pub fn new(metadata: MetadataUrl) -> (r: Self)
        ensures
            r@ == TokenStateView::fresh(metadata@),
    {
        let r = TokenState { balances: Vec::new(), metadata };
        assert(r@.balances =~= Map::empty());
        r
    }

    /// Looks for the record of `account`.
    fn find(&self, account: &AccountAddress) -> (r: Option<usize>)
        ensures
            match r {
                Some(i) => self.entry_of(*account, i as int) && self.holds(*account)
                    && self.index_of(*account) == i,
                None => !self.holds(*account),
            },
    {
        proof {
            use_type_invariant(self);
        }
        let mut i: usize = 0;
        while i < self.balances.len()
            invariant
                i <= self.balances.len(),
                self.distinct_holders(),
                forall|j: int| 0 <= j < i ==> !self.entry_of(*account, j),
            decreases self.balances.len() - i,
        {
            if self.balances[i].owner == *account {
                assert(self.entry_of(*account, i as int));
                return Some(i);
            }
            i += 1;
        }
        None
    }

    /// Gets the balance of `account` at `now`: zero without a record, and
    /// zero once the record has expired.
    pub fn get_account_balance(&self, account: AccountAddress, now: Timestamp) -> (r:
        ContractTokenAmount)
        ensures
            r == self@.balance_of(account, now),
    {
        match self.find(&account) {
            Some(i) => self.balances[i].balance.get_balance(now),
            None => 0,
        }
    }

    /// Gets the expiry recorded for `account`, if it has a record.
    pub fn get_account_balance_expiry(&self, account: AccountAddress) -> (r: Option<Timestamp>)
        ensures
            r == self@.expiry_of(account),
    {
        match self.find(&account) {
            Some(i) => Some(self.balances[i].balance.expiry),
            None => None,
        }
    }

    /// The metadata given at registration.
    pub fn metadata(&self) -> (r: &MetadataUrl)
        ensures
            r@ == self@.metadata,
    {
        &self.metadata
    }

    /// Every record of the token, each with its holder, and no holder
    /// twice.
    pub fn records(&self) -> (r: Vec<(AccountAddress, TokenBalanceState)>)
        ensures
            forall|i: int, j: int| 0 <= i < j < r.len() ==> r[i].0 != r[j].0,
            forall|i: int|
                0 <= i < r.len() ==> self@.balances.contains_key((#[trigger] r[i]).0)
                    && self@.balances[r[i].0] == r[i].1,
            forall|account: AccountAddress| #[trigger]
                self@.balances.contains_key(account) ==> exists|i: int|
                    0 <= i < r.len() && (#[trigger] r[i]).0 == account,
    {
        proof {
            use_type_invariant(self);
        }
        let mut r: Vec<(AccountAddress, TokenBalanceState)> = Vec::new();
        let mut i: usize = 0;
        while i < self.balances.len()
            invariant
                i <= self.balances.len(),
                self.distinct_holders(),
                r.len() == i,
                forall|j: int|
                    0 <= j < i ==> (#[trigger] r[j]).0 == self.balances[j].owner && r[j].1
                        == self.balances[j].balance,
            decreases self.balances.len() - i,
        {
            r.push((self.balances[i].owner, self.balances[i].balance));
            i += 1;
        }
        proof {
            assert forall|k: int| 0 <= k < r.len() implies self@.balances.contains_key(
                (#[trigger] r[k]).0,
            ) && self@.balances[r[k].0] == r[k].1 by {
                let account = r[k].0;
                assert(self.entry_of(account, k));
            }
            assert forall|account: AccountAddress| #[trigger]
                self@.balances.contains_key(account) implies exists|k: int|
                0 <= k < r.len() && (#[trigger] r[k]).0 == account by {
                let k = self.index_of(account);
                assert(r[k].0 == account);
            }
        }
        r
    }

    /// Checks if some holder's balance counts at `now`.
    pub fn has_balances(&self, now: Timestamp) -> (r: bool)
        ensures
            r == self@.has_balances(now),
    {
        proof {
            use_type_invariant(self);
        }
        let mut i: usize = 0;
        while i < self.balances.len()
            invariant
                i <= self.balances.len(),
                self.distinct_holders(),
                forall|j: int| 0 <= j < i ==> !self.balances[j].balance.has_balance_at(now),
            decreases self.balances.len() - i,
        {
            if self.balances[i].balance.has_balance(now) {
                proof {
                    let account = self.balances[i as int].owner;
                    assert(self.entry_of(account, i as int));
                    assert(self@.balances[account].has_balance_at(now));
                }
                return true;
            }
            i += 1;
        }
        assert forall|account: AccountAddress|
            self@.balances.contains_key(account) implies !(
        #[trigger] self@.balances[account].has_balance_at(now)) by {}
        false
    }

    /// Installs `record` for `account` in place of whatever it had, and
    /// hands back what it had.
    pub fn insert_balance(&mut self, account: AccountAddress, record: TokenBalanceState) -> (r:
        Option<TokenBalanceState>)
        ensures
            final(self)@ == old(self)@.with_balance(account, record),
            r == old(self)@.balances.get(account),
    {
        proof {
            use_type_invariant(&*self);
        }
        match self.find(&account) {
            Some(i) => {
                let prior = self.balances[i].balance;
                let mut balances: Vec<HolderBalance> = Vec::new();
                core::mem::swap(&mut self.balances, &mut balances);
                balances.set(i, HolderBalance { owner: account, balance: record });
                core::mem::swap(&mut self.balances, &mut balances);
                proof {
                    assert forall|a: AccountAddress| self.holds(a) == old(self).holds(a) by {
                        if self.holds(a) {
                            assert(old(self).entry_of(a, self.index_of(a)));
                        }
                        if old(self).holds(a) {
                            assert(self.entry_of(a, old(self).index_of(a)));
                        }
                    }
                    assert forall|a: AccountAddress| self.holds(a) implies self.index_of(a)
                        == old(self).index_of(a) by {}
                    assert(self@.balances =~= old(self)@.balances.insert(account, record));
                }
                Some(prior)
            },
            None => {
                let mut balances: Vec<HolderBalance> = Vec::new();
                core::mem::swap(&mut self.balances, &mut balances);
                balances.push(HolderBalance { owner: account, balance: record });
                proof {
                    assert forall|k: int| 0 <= k < old(self).balances.len() implies old(
                        self,
                    ).balances[k].owner != account by {
                        assert(!old(self).entry_of(account, k));
                    }
                }
                core::mem::swap(&mut self.balances, &mut balances);
                proof {
                    let last = old(self).balances.len() as int;
                    assert(self.entry_of(account, last));
                    assert forall|a: AccountAddress|
                        self.holds(a) == (a == account || old(self).holds(a)) by {
                        if self.holds(a) {
                            let k = self.index_of(a);
                            if k < last {
                                assert(old(self).entry_of(a, k));
                            }
                        }
                        if old(self).holds(a) {
                            assert(self.entry_of(a, old(self).index_of(a)));
                        }
                    }
                    assert forall|a: AccountAddress| old(self).holds(a) implies self.index_of(a)
                        == old(self).index_of(a) by {}
                    assert(self@.balances =~= old(self)@.balances.insert(account, record));
                }
                None
            },
        }
    }
}

impl Clone for TokenState {
    /// A token with the same metadata and the same records.
    fn clone(&self) -> (r: Self)
        ensures
            r@ == self@,
    {
        let records = self.records();
        let mut r = TokenState::new(self.metadata.clone());
        let mut i: usize = 0;
        while i < records.len()
            invariant
                i <= records.len(),
                forall|j: int, k: int| 0 <= j < k < records.len() ==> records[j].0 != records[k].0,
                r@.metadata == self@.metadata,
                forall|account: AccountAddress| #[trigger]
                    r@.balances.contains_key(account) <==> exists|j: int|
                        0 <= j < i && (#[trigger] records[j]).0 == account,
                forall|j: int|
                    0 <= j < i ==> r@.balances[(#[trigger] records[j]).0] == records[j].1,
            decreases records.len() - i,
        {
            r.insert_balance(records[i].0, records[i].1);
            i += 1;
        }
        assert(r@.balances =~= self@.balances);
        r
    }
}

/// The ledger: every registered token, by its identifier.
#[derive(Debug)]
pub struct State {
    tokens: HashMap<ContractTokenId, TokenState>,
}

impl View for State {
    type V = LedgerView;

    closed spec fn view(&self) -> LedgerView {
        Map::new(
            |token_id: ContractTokenId| self.tokens@.contains_key(token_id),
            |token_id: ContractTokenId| self.tokens@[token_id]@,
        )
    }
}

impl State {
    /// The ledger without tokens.
    pub fn empty() -> (r: Self)
        ensures
            r@ == Map::<ContractTokenId, TokenStateView>::empty(),
    {
        State { tokens: HashMap::new() }
    }

    /// Checks if a token is registered.
    pub fn has_token(&self, token_id: ContractTokenId) -> (r: bool)
        ensures
            r == self@.contains_key(token_id),
    {
        self.tokens.contains_key(&token_id)
    }

    /// The identifiers of all registered tokens, in ascending order.
    pub fn token_ids(&self) -> (r: Vec<ContractTokenId>)
        ensures
            forall|i: int, j: int| 0 <= i < j < r.len() ==> r[i] < r[j],
            forall|token_id: ContractTokenId|
                self@.contains_key(token_id) <==> r@.contains(token_id),
    {
        let mut r: Vec<ContractTokenId> = Vec::new();
        let mut next: u16 = 0;
        while next < 256
            invariant
                next <= 256,
                forall|i: int, j: int| 0 <= i < j < r.len() ==> r[i] < r[j],
                forall|i: int|
                    0 <= i < r.len() ==> (#[trigger] r[i]) < next && self@.contains_key(r[i]),
                forall|token_id: ContractTokenId|
                    token_id < next && self@.contains_key(token_id) ==> r@.contains(token_id),
            decreases 256 - next,
        {
            let token_id = next as u8;
            if self.has_token(token_id) {
                let ghost before = r@;
                r.push(token_id);
                proof {
                    assert(r@[before.len() as int] == token_id);
                    assert forall|k: ContractTokenId|
                        k <= token_id && self@.contains_key(k) implies r@.contains(k) by {
                        if k < token_id {
                            assert(before.contains(k));
                            assert(r@[before.index_of(k)] == k);
                        }
                    }
                }
            }
            next += 1;
        }
        r
    }

    /// The token registered under `token_id`, if there is one.
    pub fn get_token(&self, token_id: ContractTokenId) -> (r: Option<&TokenState>)
        ensures
            match r {
                Some(token) => self@.contains_key(token_id) && token@ == self@[token_id],
                None => !self@.contains_key(token_id),
            },
    {
        self.tokens.get(&token_id)
    }

    /// Registers a token without balances.  A token that is registered
    /// already stays as it is.
    pub fn add_token(&mut self, token_id: ContractTokenId, token_metadata: MetadataUrl)
        ensures
            final(self)@ == if old(self)@.contains_key(token_id) {
                old(self)@
            } else {
                old(self)@.insert(token_id, TokenStateView::fresh(token_metadata@))
            },
    {
        if !self.tokens.contains_key(&token_id) {
            self.tokens.insert(token_id, TokenState::new(token_metadata));
        }
    }

    /// Removes a token with all its records.  Nothing happens if the token
    /// is not registered.
    pub fn remove_token(&mut self, token_id: ContractTokenId)
        ensures
            final(self)@ == old(self)@.remove(token_id),
    {
        self.tokens.remove(&token_id);
    }

    /// Checks if a token is registered and one of its balances counts at
    /// `now`.
    pub fn has_balances(&self, token_id: ContractTokenId, now: Timestamp) -> (r: bool)
        ensures
            r == (self@.contains_key(token_id) && self@[token_id].has_balances(now)),
    {
        match self.tokens.get(&token_id) {
            Some(token) => token.has_balances(now),
            None => false,
        }
    }

    /// Installs a new record for `account` on a token, in place of any
    /// record it had, and hands back the record it had.  Fails if the token
    /// is not registered.
    pub fn mint(
        &mut self,
        token_id: ContractTokenId,
        account: AccountAddress,
        amount: ContractTokenAmount,
        expiry: Timestamp,
    ) -> (r: ContractResult<Option<TokenBalanceState>>)
        ensures
            old(self)@.contains_key(token_id) ==> r == Ok::<
                Option<TokenBalanceState>,
                ContractError,
            >(old(self)@[token_id].balances.get(account)) && final(self)@ == old(self)@.insert(
                token_id,
                old(self)@[token_id].with_balance(account, TokenBalanceState { amount, expiry }),
            ),
            !old(self)@.contains_key(token_id) ==> r == Err::<
                Option<TokenBalanceState>,
                ContractError,
            >(ContractError::InvalidTokenId) && final(self)@ == old(self)@,
    {
        match self.tokens.remove(&token_id) {
            Some(token) => {
                let mut token = token;
                let prior = token.insert_balance(account, TokenBalanceState { amount, expiry });
                self.tokens.insert(token_id, token);
                Ok(prior)
            },
            None => {
                Err(ContractError::InvalidTokenId)
            },
        }
    }

    /// Gets the balance of `account` for a token at `now`: zero without a
    /// record, and zero once the record has expired.  Fails if the token is
    /// not registered.
    pub fn get_account_balance(
        &self,
        token_id: ContractTokenId,
        account: AccountAddress,
        now: Timestamp,
    ) -> (r: ContractResult<ContractTokenAmount>)
        ensures
            r == if self@.contains_key(token_id) {
                Ok::<ContractTokenAmount, ContractError>(self@[token_id].balance_of(account, now))
            } else {
                Err(ContractError::InvalidTokenId)
            },
    {
        match self.tokens.get(&token_id) {
            Some(token) => Ok(token.get_account_balance(account, now)),
            None => Err(ContractError::InvalidTokenId),
        }
    }

    /// Gets the expiry recorded for `account` on a token, passed or not;
    /// `None` without a record.  Fails if the token is not registered.
    pub fn get_account_balance_expiry(
        &self,
        token_id: ContractTokenId,
        account: AccountAddress,
    ) -> (r: ContractResult<Option<Timestamp>>)
        ensures
            r == if self@.contains_key(token_id) {
                Ok::<Option<Timestamp>, ContractError>(self@[token_id].expiry_of(account))
            } else {
                Err(ContractError::InvalidTokenId)
            },
    {
        match self.tokens.get(&token_id) {
            Some(token) => Ok(token.get_account_balance_expiry(account)),
            None => Err(ContractError::InvalidTokenId),
        }
    }

    /// Gets the metadata of a token.  Fails if the token is not registered.
    pub fn get_token_metadata(&self, token_id: &ContractTokenId) -> (r: ContractResult<MetadataUrl>)
        ensures
            match r {
                Ok(metadata) => self@.contains_key(*token_id) && metadata@
                    == self@[*token_id].metadata,
                Err(e) => !self@.contains_key(*token_id) && e == ContractError::InvalidTokenId,
            },
    {
        match self.tokens.get(token_id) {
            Some(token) => Ok(token.metadata().clone()),
            None => Err(ContractError::InvalidTokenId),
        }
    }
}

impl Clone for State {
    /// A ledger with the same tokens, each with the same metadata and the
    /// same records.
    fn clone(&self) -> (r: Self)
        ensures
            r@ == self@,
    {
        let token_ids = self.token_ids();
        let mut r = State::empty();
        let mut i: usize = 0;
        while i < token_ids.len()
            invariant
                i <= token_ids.len(),
                forall|j: int, k: int| 0 <= j < k < token_ids.len() ==> token_ids[j] < token_ids[k],
                forall|token_id: ContractTokenId|
                    self@.contains_key(token_id) <==> token_ids@.contains(token_id),
                forall|token_id: ContractTokenId| #[trigger]
                    r@.contains_key(token_id) <==> exists|j: int|
                        0 <= j < i && #[trigger] token_ids[j] == token_id,
                forall|j: int| 0 <= j < i ==> r@[#[trigger] token_ids[j]] == self@[token_ids[j]],
            decreases token_ids.len() - i,
        {
            let token_id = token_ids[i];
            let ghost before = r@;
            assert(token_ids@.contains(token_id));
            if let Some(token) = self.tokens.get(&token_id) {
                r.tokens.insert(token_id, token.clone());
                assert(r@ =~= before.insert(token_id, self@[token_id]));
            }
            i += 1;
        }
        assert forall|k: ContractTokenId| r@.contains_key(k) <==> self@.contains_key(k) by {
            if r@.contains_key(k) {
                let j = choose|j: int| 0 <= j < i && #[trigger] token_ids[j] == k;
                assert(token_ids@.contains(k));
            }
            if self@.contains_key(k) {
                assert(token_ids@.contains(k));
            }
        }
        assert(r@ =~= self@);
        r
    }
}

} // verus!
