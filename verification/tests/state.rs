use cis2_dsid::errors::{CustomError, LogError, ParseError};
use cis2_dsid::state::{State, TokenBalanceState, TokenState};
use cis2_dsid::types::{
    AccountAddress, Address, ContractAddress, ContractError, ContractTokenId, MetadataUrl,
    ReceiveContext,
};

const ACCOUNT_0: AccountAddress = AccountAddress([0u8; 32]);
const ACCOUNT_1: AccountAddress = AccountAddress([1u8; 32]);
const TOKEN_0: ContractTokenId = 2;

fn url(text: &str) -> MetadataUrl {
    MetadataUrl { url: text.to_string(), hash: None }
}

#[test]
fn balance_counts_until_its_expiry() {
    let record = TokenBalanceState { amount: 5, expiry: 100 };
    assert_eq!(record.get_balance(0), 5);
    assert_eq!(record.get_balance(99), 5);
    assert_eq!(record.get_balance(100), 0);
    assert_eq!(record.get_balance(101), 0);
    assert!(record.has_balance(99));
    assert!(!record.has_balance(100));
}

#[test]
fn balance_of_zero_never_counts() {
    let record = TokenBalanceState { amount: 0, expiry: 100 };
    assert_eq!(record.get_balance(0), 0);
    assert!(!record.has_balance(0));
    let never = TokenBalanceState { amount: u16::MAX, expiry: 0 };
    assert_eq!(never.get_balance(0), 0);
    assert!(!never.has_balance(0));
    let always = TokenBalanceState { amount: u16::MAX, expiry: u64::MAX };
    assert_eq!(always.get_balance(u64::MAX - 1), u16::MAX);
    assert_eq!(always.get_balance(u64::MAX), 0);
}

#[test]
fn empty_state_has_no_tokens() {
    let state = State::empty();
    assert!(!state.has_token(0));
    assert!(!state.has_token(TOKEN_0));
    assert!(!state.has_token(255));
    assert!(state.get_token(TOKEN_0).is_none());
    assert!(!state.has_balances(TOKEN_0, 0));
    assert_eq!(
        state.get_account_balance(TOKEN_0, ACCOUNT_0, 0),
        Err(ContractError::InvalidTokenId)
    );
    assert_eq!(
        state.get_account_balance_expiry(TOKEN_0, ACCOUNT_0),
        Err(ContractError::InvalidTokenId)
    );
    assert_eq!(state.get_token_metadata(&TOKEN_0), Err(ContractError::InvalidTokenId));
}

#[test]
fn add_token_does_not_replace() {
    let mut state = State::empty();
    state.add_token(TOKEN_0, url("first"));
    state.mint(TOKEN_0, ACCOUNT_0, 5, 100).unwrap();
    state.add_token(TOKEN_0, url("second"));
    assert_eq!(state.get_token_metadata(&TOKEN_0), Ok(url("first")));
    assert_eq!(state.get_account_balance(TOKEN_0, ACCOUNT_0, 50), Ok(5));
}

#[test]
fn remove_token_of_unknown_token_does_nothing() {
    let mut state = State::empty();
    state.add_token(TOKEN_0, url("a"));
    state.remove_token(9);
    assert!(state.has_token(TOKEN_0));
    state.remove_token(TOKEN_0);
    assert!(!state.has_token(TOKEN_0));
    state.remove_token(TOKEN_0);
    assert!(!state.has_token(TOKEN_0));
}

#[test]
fn state_mint_hands_back_the_old_record() {
    let mut state = State::empty();
    assert_eq!(state.mint(TOKEN_0, ACCOUNT_0, 5, 100), Err(ContractError::InvalidTokenId));
    state.add_token(TOKEN_0, url("a"));
    assert_eq!(state.mint(TOKEN_0, ACCOUNT_0, 5, 100), Ok(None));
    assert_eq!(state.mint(TOKEN_0, ACCOUNT_1, 6, 200), Ok(None));
    assert_eq!(
        state.mint(TOKEN_0, ACCOUNT_0, 7, 300),
        Ok(Some(TokenBalanceState { amount: 5, expiry: 100 }))
    );
    assert_eq!(state.get_account_balance(TOKEN_0, ACCOUNT_0, 250), Ok(7));
    assert_eq!(state.get_account_balance(TOKEN_0, ACCOUNT_1, 250), Ok(0));
    assert_eq!(state.get_account_balance_expiry(TOKEN_0, ACCOUNT_1), Ok(Some(200)));
}

#[test]
fn state_has_balances_follows_the_clock() {
    let mut state = State::empty();
    state.add_token(TOKEN_0, url("a"));
    assert!(!state.has_balances(TOKEN_0, 0));
    state.mint(TOKEN_0, ACCOUNT_0, 0, 500).unwrap();
    assert!(!state.has_balances(TOKEN_0, 0));
    state.mint(TOKEN_0, ACCOUNT_1, 1, 100).unwrap();
    assert!(state.has_balances(TOKEN_0, 99));
    assert!(!state.has_balances(TOKEN_0, 100));
    assert!(!state.has_balances(3, 0));
}

#[test]
fn token_state_keeps_one_record_per_holder() {
    let mut token = TokenState::new(url("a"));
    assert_eq!(token.metadata(), &url("a"));
    assert_eq!(token.records(), vec![]);
    assert_eq!(token.insert_balance(ACCOUNT_0, TokenBalanceState { amount: 1, expiry: 10 }), None);
    assert_eq!(token.insert_balance(ACCOUNT_1, TokenBalanceState { amount: 2, expiry: 20 }), None);
    assert_eq!(
        token.insert_balance(ACCOUNT_0, TokenBalanceState { amount: 3, expiry: 30 }),
        Some(TokenBalanceState { amount: 1, expiry: 10 })
    );
    assert_eq!(
        token.records(),
        vec![
            (ACCOUNT_0, TokenBalanceState { amount: 3, expiry: 30 }),
            (ACCOUNT_1, TokenBalanceState { amount: 2, expiry: 20 }),
        ]
    );
    assert_eq!(token.get_account_balance(ACCOUNT_0, 29), 3);
    assert_eq!(token.get_account_balance(ACCOUNT_0, 30), 0);
    assert_eq!(token.get_account_balance_expiry(ACCOUNT_0), Some(30));
    assert_eq!(token.get_account_balance_expiry(AccountAddress([9u8; 32])), None);
    assert!(token.has_balances(19));
    assert!(token.has_balances(29));
    assert!(!token.has_balances(30));
}

#[test]
fn holders_that_differ_in_one_byte_are_different() {
    let mut last = [0u8; 32];
    last[31] = 1;
    let mut first = [0u8; 32];
    first[0] = 1;
    let mut state = State::empty();
    state.add_token(TOKEN_0, url("a"));
    state.mint(TOKEN_0, AccountAddress([0u8; 32]), 1, 100).unwrap();
    state.mint(TOKEN_0, AccountAddress(last), 2, 100).unwrap();
    state.mint(TOKEN_0, AccountAddress(first), 3, 100).unwrap();
    assert_eq!(state.get_account_balance(TOKEN_0, AccountAddress([0u8; 32]), 0), Ok(1));
    assert_eq!(state.get_account_balance(TOKEN_0, AccountAddress(last), 0), Ok(2));
    assert_eq!(state.get_account_balance(TOKEN_0, AccountAddress(first), 0), Ok(3));
    assert!(AccountAddress(last) != AccountAddress(first));
    assert!(AccountAddress(last) == AccountAddress(last));
}

#[test]
fn address_matches_only_its_account() {
    let account = Address::Account(ACCOUNT_0);
    assert!(account.matches_account(&ACCOUNT_0));
    assert!(!account.matches_account(&ACCOUNT_1));
    let contract = Address::Contract(ContractAddress { index: 0, subindex: 0 });
    assert!(!contract.matches_account(&ACCOUNT_0));
}

#[test]
fn only_the_owner_is_authorized() {
    let owner =
        ReceiveContext { sender: Address::Account(ACCOUNT_0), owner: ACCOUNT_0, slot_time: 0 };
    assert!(owner.is_authorized());
    let other =
        ReceiveContext { sender: Address::Account(ACCOUNT_1), owner: ACCOUNT_0, slot_time: 0 };
    assert!(!other.is_authorized());
    let contract = ReceiveContext {
        sender: Address::Contract(ContractAddress { index: 0, subindex: 0 }),
        owner: ACCOUNT_0,
        slot_time: 0,
    };
    assert!(!contract.is_authorized());
}

#[test]
fn log_and_parse_errors_map_to_custom_errors() {
    assert_eq!(CustomError::from(LogError::Full), CustomError::LogFull);
    assert_eq!(CustomError::from(LogError::Malformed), CustomError::LogMalformed);
    assert_eq!(CustomError::from(ParseError {}), CustomError::ParseParams);
}

#[test]
fn empty_metadata_has_no_url_and_no_hash() {
    let empty = MetadataUrl::empty();
    assert_eq!(empty, MetadataUrl { url: String::new(), hash: None });
    let full = MetadataUrl { url: "u".to_string(), hash: Some([7u8; 32]) };
    assert_eq!(full.clone(), full);
    assert_ne!(full, empty);
}

#[test]
fn token_ids_are_listed_in_ascending_order() {
    let mut state = State::empty();
    assert_eq!(state.token_ids(), Vec::<ContractTokenId>::new());
    state.add_token(255, url("c"));
    state.add_token(0, url("a"));
    state.add_token(7, url("b"));
    assert_eq!(state.token_ids(), vec![0, 7, 255]);
    state.remove_token(7);
    assert_eq!(state.token_ids(), vec![0, 255]);
}

#[test]
fn get_token_finds_registered_tokens_only() {
    let mut state = State::empty();
    state.add_token(TOKEN_0, url("a"));
    state.mint(TOKEN_0, ACCOUNT_0, 5, 100).unwrap();
    let token = state.get_token(TOKEN_0).unwrap();
    assert_eq!(token.metadata(), &url("a"));
    assert_eq!(token.records(), vec![(ACCOUNT_0, TokenBalanceState { amount: 5, expiry: 100 })]);
    assert!(state.get_token(3).is_none());
}

#[test]
fn a_copy_of_the_ledger_reads_the_same_and_changes_alone() {
    let mut state = State::empty();
    state.add_token(TOKEN_0, MetadataUrl { url: "a".to_string(), hash: Some([4u8; 32]) });
    state.add_token(9, url("b"));
    state.mint(TOKEN_0, ACCOUNT_0, 5, 100).unwrap();
    state.mint(TOKEN_0, ACCOUNT_1, 6, 200).unwrap();

    let mut copy = state.clone();
    assert_eq!(copy.token_ids(), vec![TOKEN_0, 9]);
    assert_eq!(copy.get_token_metadata(&TOKEN_0), state.get_token_metadata(&TOKEN_0));
    assert_eq!(copy.get_token_metadata(&9), Ok(url("b")));
    assert_eq!(copy.get_account_balance(TOKEN_0, ACCOUNT_0, 50), Ok(5));
    assert_eq!(copy.get_account_balance_expiry(TOKEN_0, ACCOUNT_1), Ok(Some(200)));
    assert_eq!(copy.get_account_balance_expiry(9, ACCOUNT_1), Ok(None));

    copy.mint(TOKEN_0, ACCOUNT_0, 50, 1000).unwrap();
    copy.remove_token(9);
    assert_eq!(state.get_account_balance(TOKEN_0, ACCOUNT_0, 50), Ok(5));
    assert!(state.has_token(9));
}
