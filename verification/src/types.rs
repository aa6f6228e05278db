//! Plain value types shared by the ledger and its entry points.

use crate::errors::CustomError;
use vstd::prelude::*;

verus! {

/// Identifier of a token type.
pub type ContractTokenId = u8;

/// A quantity of tokens.
pub type ContractTokenAmount = u16;

/// An absolute instant, in milliseconds since the Unix epoch.
pub type Timestamp = u64;

/// Result of an entry point.
pub type ContractResult<T> = Result<T, ContractError>;

/// Address of an account: thirty-two raw bytes.
#[derive(Clone, Copy, Debug, Eq)]
pub struct AccountAddress(pub [u8; 32]);

impl PartialEq for AccountAddress {
    fn eq(&self, other: &Self) -> (r: bool) {
        let mut i: usize = 0;
        while i < 32
            invariant
                i <= 32,
                forall|j: int| 0 <= j < i ==> self.0[j] == other.0[j],
            decreases 32 - i,
        {
            if self.0[i] != other.0[i] {
                return false;
            }
            i += 1;
        }
        assert(self.0 =~= other.0);
        true
    }
}

impl vstd::std_specs::cmp::PartialEqSpecImpl for AccountAddress {
    open spec fn obeys_eq_spec() -> bool {
        true
    }

    open spec fn eq_spec(&self, other: &Self) -> bool {
        *self == *other
    }
}

/// Address of a contract instance.
#[derive(Clone, Copy, Debug, PartialEq, Eq, Structural)]
pub struct ContractAddress {
    pub index: u64,
    pub subindex: u64,
}

/// Either kind of address that can send a message or hold a role.
#[derive(Clone, Copy, Debug, PartialEq, Eq)]
pub enum Address {
    Account(AccountAddress),
    Contract(ContractAddress),
}

impl Address {
    /// Whether this address is the account `acc`.
    pub fn matches_account(&self, acc: &AccountAddress) -> (r: bool)
        ensures
            r == (*self == Address::Account(*acc)),
    {
        match self {
            Address::Account(my_acc) => my_acc == acc,
            Address::Contract(_) => false,
        }
    }
}

/// What the host tells an entry point about the call it is serving.
#[derive(Clone, Copy, Debug)]
pub struct ReceiveContext {
    /// Who sent the message.
    pub sender: Address,
    /// The account that owns the ledger: its administrator.
    pub owner: AccountAddress,
    /// The instant of the call, sampled once.
    pub slot_time: Timestamp,
}

impl ReceiveContext {
    /// The sender holds the administrator capability.
    pub open spec fn sender_is_owner(self) -> bool {
        self.sender == Address::Account(self.owner)
    }

    /// Checks that the sender is the ledger's owner.
    pub fn is_authorized(&self) -> (r: bool)
        ensures
            r == self.sender_is_owner(),
    {
        self.sender.matches_account(&self.owner)
    }
}

/// A reference to a token's metadata, with an optional hash of the content.
#[derive(Debug, PartialEq, Eq)]
pub struct MetadataUrl {
    pub url: String,
    pub hash: Option<[u8; 32]>,
}

/// Mathematical value of a [`MetadataUrl`].
pub struct MetadataUrlView {
    pub url: Seq<char>,
    pub hash: Option<[u8; 32]>,
}

impl MetadataUrlView {
    /// The metadata that announces a retraction: no reference, no hash.
    pub open spec fn empty() -> Self {
        MetadataUrlView { url: Seq::empty(), hash: None }
    }
}

impl View for MetadataUrl {
    type V = MetadataUrlView;

    open spec fn view(&self) -> MetadataUrlView {
        MetadataUrlView { url: self.url@, hash: self.hash }
    }
}

impl Clone for MetadataUrl {
    fn clone(&self) -> (r: Self)
        ensures
            r@ == self@,
    {
        MetadataUrl { url: self.url.clone(), hash: self.hash }
    }
}

impl MetadataUrl {
    /// The empty metadata.
    pub fn empty() -> (r: Self)
        ensures
            r@ == MetadataUrlView::empty(),
    {
        MetadataUrl { url: String::new(), hash: None }
    }
}

/// Why an entry point refused a call.
#[derive(Clone, Copy, Debug, PartialEq, Eq, Structural)]
pub enum ContractError {
    /// The call names a token that is not registered (or, when registering,
    /// one that already is).
    InvalidTokenId,
    /// The sender may not make this call, or nobody may.
    Unauthorized,
    /// An error particular to this ledger.
    Custom(CustomError),
}

/// A change of the ledger, as announced to observers.
#[derive(Debug, PartialEq, Eq)]
pub enum ContractEvent {
    /// The metadata of a token was set, or cleared on removal.
    TokenMetadata { token_id: ContractTokenId, metadata_url: MetadataUrl },
    /// Tokens were created for `owner`.
    Mint { token_id: ContractTokenId, owner: Address, amount: ContractTokenAmount },
    /// Tokens of `owner` were destroyed.
    Burn { token_id: ContractTokenId, owner: Address, amount: ContractTokenAmount },
}

/// Mathematical value of a [`ContractEvent`].
pub enum ContractEventView {
    TokenMetadata { token_id: ContractTokenId, metadata_url: MetadataUrlView },
    Mint { token_id: ContractTokenId, owner: Address, amount: ContractTokenAmount },
    Burn { token_id: ContractTokenId, owner: Address, amount: ContractTokenAmount },
}

impl View for ContractEvent {
    type V = ContractEventView;

    open spec fn view(&self) -> ContractEventView {
        match *self {
            ContractEvent::TokenMetadata { token_id, metadata_url } => {
                ContractEventView::TokenMetadata { token_id, metadata_url: metadata_url@ }
            },
            ContractEvent::Mint { token_id, owner, amount } => ContractEventView::Mint {
                token_id,
                owner,
                amount,
            },
            ContractEvent::Burn { token_id, owner, amount } => ContractEventView::Burn {
                token_id,
                owner,
                amount,
            },
        }
    }
}

/// The events of a call, each by its value, in the order of emission.
pub open spec fn events_view(events: Seq<ContractEvent>) -> Seq<ContractEventView> {
    Seq::new(events.len(), |i: int| events[i]@)
}

/// One query for the balance, or the expiry, that an address has of a
/// token.
#[derive(Clone, Copy, Debug, PartialEq, Eq)]
pub struct BalanceOfQuery {
    pub token_id: ContractTokenId,
    pub address: Address,
}

/// Parameter of the balance query.
#[derive(Debug, PartialEq, Eq)]
pub struct ContractBalanceOfQueryParams {
    pub queries: Vec<BalanceOfQuery>,
}

/// One query of the expiry query.
pub type ContractExpiryOfQuery = BalanceOfQuery;

/// Parameter of the expiry query.
pub type ContractExpiryOfQueryParams = ContractBalanceOfQueryParams;

/// Answer of the balance query: one amount per query, in their order.
#[derive(Debug, PartialEq, Eq)]
pub struct ContractBalanceOfQueryResponse(pub Vec<ContractTokenAmount>);

/// Parameter of the metadata query.
#[derive(Debug, PartialEq, Eq)]
pub struct ContractTokenMetadataQueryParams {
    pub queries: Vec<ContractTokenId>,
}

/// Answer of the metadata query: one metadata per query, in their order.
#[derive(Debug, PartialEq, Eq)]
pub struct TokenMetadataQueryResponse(pub Vec<MetadataUrl>);

/// One query whether `address` may act for `owner`.
#[derive(Clone, Copy, Debug, PartialEq, Eq)]
pub struct OperatorOfQuery {
    pub owner: Address,
    pub address: Address,
}

/// Parameter of the operator query.
#[derive(Debug, PartialEq, Eq)]
pub struct OperatorOfQueryParams {
    pub queries: Vec<OperatorOfQuery>,
}

/// Answer of the operator query: one flag per query, in their order.
#[derive(Debug, PartialEq, Eq)]
pub struct OperatorOfQueryResponse(pub Vec<bool>);

} // verus!
