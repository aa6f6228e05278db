use cis2_dsid::contract::add::{add, AddParams, AddTokenParams};
use cis2_dsid::contract::balance_of::balance_of;
use cis2_dsid::contract::expiry_of::{expiry_of, ExpiryOfQueryResponse};
use cis2_dsid::contract::init::init;
use cis2_dsid::contract::mint::{mint, MintParam, MintParams};
use cis2_dsid::contract::remove::{remove, RemoveParams};
use cis2_dsid::contract::token_metadata::token_metadata;
use cis2_dsid::errors::CustomError;
use cis2_dsid::state::State;
use cis2_dsid::types::{
    AccountAddress, Address, BalanceOfQuery, ContractBalanceOfQueryParams,
    ContractBalanceOfQueryResponse, ContractError, ContractEvent, ContractExpiryOfQuery,
    ContractExpiryOfQueryParams, ContractResult, ContractTokenId,
    ContractTokenMetadataQueryParams, MetadataUrl, ReceiveContext, Timestamp,
    TokenMetadataQueryResponse,
};

// Contract owner
const ACCOUNT_OWNER: AccountAddress = AccountAddress([0u8; 32]);
const ADDRESS_OWNER: Address = Address::Account(ACCOUNT_OWNER);
const ACCOUNT_1: AccountAddress = AccountAddress([1u8; 32]);
const ACCOUNT_2: AccountAddress = AccountAddress([2u8; 32]);
const TOKEN_0: ContractTokenId = 2;
const TOKEN_1: ContractTokenId = 3;

fn owner_at(slot_time: Timestamp) -> ReceiveContext {
    ReceiveContext { sender: ADDRESS_OWNER, owner: ACCOUNT_OWNER, slot_time }
}

fn url(text: &str) -> MetadataUrl {
    MetadataUrl { url: text.to_string(), hash: None }
}

fn one_query(token_id: ContractTokenId, account: AccountAddress) -> ContractBalanceOfQueryParams {
    ContractBalanceOfQueryParams {
        queries: vec![BalanceOfQuery { token_id, address: Address::Account(account) }],
    }
}

#[test]
fn test_init() {
    let result: ContractResult<State> = init();
    assert!(result.is_ok(), "Expected Ok");
}

#[test]
fn test_complete_flow() {
    // Initialize the ledger.
    let init_result: ContractResult<State> = init();
    assert!(init_result.is_ok(), "Expected Ok");

    let mut state = init_result.unwrap();
    let now = 50;

    // Add a token.
    let add_ctx = owner_at(now);
    let params = AddParams {
        tokens: vec![
            AddTokenParams { token_id: TOKEN_0, metadata_url: url("https://example.com") },
            AddTokenParams { token_id: TOKEN_1, metadata_url: url("https://example.com/1") },
        ],
    };
    let add_result = add(&add_ctx, &mut state, &params);
    assert!(add_result.is_ok(), "Expected Ok");

    // Check token metadata.
    let token_metadata_param =
        ContractTokenMetadataQueryParams { queries: vec![TOKEN_0, TOKEN_1] };
    let token_metadata_result: ContractResult<TokenMetadataQueryResponse> =
        token_metadata(&state, &token_metadata_param);
    assert!(token_metadata_result.is_ok(), "Expected Ok");
    let token_metadata_response = token_metadata_result.unwrap();
    assert_eq!(token_metadata_response.0.len(), 2, "Expected two tokens");
    assert_eq!(
        token_metadata_response.0[0].url, "https://example.com",
        "Expected url to be https://example.com"
    );
    assert_eq!(
        token_metadata_response.0[1].url, "https://example.com/1",
        "Expected url to be https://example.com/1"
    );

    // Mint tokens.
    let mint_ctx = owner_at(now);
    let mint_params = MintParams {
        owner: ACCOUNT_1,
        tokens: vec![
            (TOKEN_0, MintParam { amount: 100, expiry: 100 }),
            (TOKEN_1, MintParam { amount: 200, expiry: 200 }),
        ],
    };
    let mint_result = mint(&mint_ctx, &mut state, &mint_params);
    assert!(mint_result.is_ok(), "Expected Ok");

    // Check balances.
    let balance_of_ctx = owner_at(now);
    let balance_of_params = ContractBalanceOfQueryParams {
        queries: vec![
            BalanceOfQuery { token_id: TOKEN_0, address: Address::Account(ACCOUNT_1) },
            BalanceOfQuery { token_id: TOKEN_1, address: Address::Account(ACCOUNT_1) },
            BalanceOfQuery { token_id: TOKEN_0, address: Address::Account(ACCOUNT_2) },
            BalanceOfQuery { token_id: TOKEN_1, address: Address::Account(ACCOUNT_2) },
        ],
    };
    let balance_of_result: ContractResult<ContractBalanceOfQueryResponse> =
        balance_of(&balance_of_ctx, &state, &balance_of_params);
    assert!(balance_of_result.is_ok(), "Expected Ok");
    let balance_of_response = balance_of_result.unwrap();
    assert_eq!(balance_of_response.0.len(), 4, "Expected four balance queries");
    assert_eq!(balance_of_response.0[0], 100, "Expected balance to be 100");
    assert_eq!(balance_of_response.0[1], 200, "Expected balance to be 200");
    assert_eq!(balance_of_response.0[2], 0, "Expected balance to be 0");
    assert_eq!(balance_of_response.0[3], 0, "Expected balance to be 0");

    // Check expiry.
    let expiry_params = ContractExpiryOfQueryParams {
        queries: vec![
            ContractExpiryOfQuery { token_id: TOKEN_0, address: Address::Account(ACCOUNT_1) },
            ContractExpiryOfQuery { token_id: TOKEN_1, address: Address::Account(ACCOUNT_1) },
            ContractExpiryOfQuery { token_id: TOKEN_0, address: Address::Account(ACCOUNT_2) },
            ContractExpiryOfQuery { token_id: TOKEN_1, address: Address::Account(ACCOUNT_2) },
        ],
    };
    let expiry_result: ContractResult<ExpiryOfQueryResponse> = expiry_of(&state, &expiry_params);
    assert!(expiry_result.is_ok(), "Expected Ok");
    let expiry_response = expiry_result.unwrap();
    assert_eq!(expiry_response.0.len(), 4, "Expected four expiry queries");
    assert_eq!(expiry_response.0[0], Option::Some(100), "Expected expiry to be 100");
    assert_eq!(expiry_response.0[1], Option::Some(200), "Expected expiry to be 200");
    assert_eq!(expiry_response.0[2], Option::None, "Expected expiry to be None");
    assert_eq!(expiry_response.0[3], Option::None, "Expected expiry to be None");

    // After some time has passed
    let now = 60;

    // Mint again to replace the existing token for ACCOUNT_1.
    let mint_ctx = owner_at(now);
    let mint_params = MintParams {
        owner: ACCOUNT_1,
        tokens: vec![(TOKEN_0, MintParam { amount: 200, expiry: 300 })],
    };
    let mint_result = mint(&mint_ctx, &mut state, &mint_params);
    assert!(mint_result.is_ok(), "Expected Ok");

    // Check that the balance has been updated.
    let balance_of_ctx = owner_at(now);
    let balance_of_params = one_query(TOKEN_0, ACCOUNT_1);
    let balance_of_result: ContractResult<ContractBalanceOfQueryResponse> =
        balance_of(&balance_of_ctx, &state, &balance_of_params);
    assert!(balance_of_result.is_ok(), "Expected Ok");
    let balance_of_response = balance_of_result.unwrap();
    assert_eq!(balance_of_response.0.len(), 1, "Expected one balance query");
    assert_eq!(balance_of_response.0[0], 200, "Expected balance to be 200");

    // Check that the expiry has been updated.
    let expiry_params = one_query(TOKEN_0, ACCOUNT_1);
    let expiry_result: ContractResult<ExpiryOfQueryResponse> = expiry_of(&state, &expiry_params);
    assert!(expiry_result.is_ok(), "Expected Ok");
    let expiry_response = expiry_result.unwrap();
    assert_eq!(expiry_response.0.len(), 1, "Expected one expiry query");
    assert_eq!(expiry_response.0[0], Option::Some(300), "Expected expiry to be 300");

    // Assert that Token 1 cannot be removed.
    let remove_ctx = owner_at(now);
    let remove_params = RemoveParams { tokens: vec![TOKEN_1] };
    let remove_result = remove(&remove_ctx, &mut state, &remove_params);
    assert!(remove_result.is_err(), "Expected Err");

    // After some time has passed
    let now = 1000;

    // Assert that Token 1 can be removed.
    let remove_ctx = owner_at(now);
    let remove_params = RemoveParams { tokens: vec![TOKEN_1] };
    let remove_result = remove(&remove_ctx, &mut state, &remove_params);
    assert!(remove_result.is_ok(), "Expected Ok");
}

#[test]
fn register_mint_expire_remove() {
    let token: ContractTokenId = 7;
    let metadata = MetadataUrl { url: "https://example.com/t".to_string(), hash: Some([3u8; 32]) };
    let mut state = init().unwrap();

    let params = AddParams {
        tokens: vec![AddTokenParams { token_id: token, metadata_url: metadata.clone() }],
    };
    assert_eq!(
        add(&owner_at(50), &mut state, &params),
        Ok(vec![ContractEvent::TokenMetadata { token_id: token, metadata_url: metadata.clone() }])
    );

    let params = MintParams {
        owner: ACCOUNT_1,
        tokens: vec![(token, MintParam { amount: 100, expiry: 100 })],
    };
    assert!(mint(&owner_at(50), &mut state, &params).is_ok());

    let query = one_query(token, ACCOUNT_1);
    assert_eq!(balance_of(&owner_at(50), &state, &query).unwrap().0, vec![100]);
    assert_eq!(expiry_of(&state, &query).unwrap().0, vec![Some(100)]);

    // Time passes: the balance no longer counts, its expiry is still there.
    assert_eq!(balance_of(&owner_at(150), &state, &query).unwrap().0, vec![0]);
    assert_eq!(expiry_of(&state, &query).unwrap().0, vec![Some(100)]);

    let params = RemoveParams { tokens: vec![token] };
    assert_eq!(
        remove(&owner_at(150), &mut state, &params),
        Ok(vec![ContractEvent::TokenMetadata {
            token_id: token,
            metadata_url: MetadataUrl { url: String::new(), hash: None },
        }])
    );

    assert_eq!(balance_of(&owner_at(150), &state, &query), Err(ContractError::InvalidTokenId));
    assert_eq!(expiry_of(&state, &query), Err(ContractError::InvalidTokenId));
    let metadata_query = ContractTokenMetadataQueryParams { queries: vec![token] };
    assert_eq!(token_metadata(&state, &metadata_query), Err(ContractError::InvalidTokenId));
}

#[test]
fn mint_again_burns_then_mints() {
    let token: ContractTokenId = 7;
    let mut state = init().unwrap();
    let params =
        AddParams { tokens: vec![AddTokenParams { token_id: token, metadata_url: url("m") }] };
    add(&owner_at(50), &mut state, &params).unwrap();

    let first = MintParams {
        owner: ACCOUNT_1,
        tokens: vec![(token, MintParam { amount: 10, expiry: 100 })],
    };
    mint(&owner_at(50), &mut state, &first).unwrap();

    let second = MintParams {
        owner: ACCOUNT_1,
        tokens: vec![(token, MintParam { amount: 20, expiry: 200 })],
    };
    let events = mint(&owner_at(60), &mut state, &second).unwrap();
    assert_eq!(
        events,
        vec![
            ContractEvent::Burn { token_id: token, owner: Address::Account(ACCOUNT_1), amount: 10 },
            ContractEvent::Mint { token_id: token, owner: Address::Account(ACCOUNT_1), amount: 20 },
        ]
    );

    let query = one_query(token, ACCOUNT_1);
    assert_eq!(balance_of(&owner_at(150), &state, &query).unwrap().0, vec![20]);
}

#[test]
fn a_stranger_changes_nothing() {
    let stranger =
        ReceiveContext { sender: Address::Account(ACCOUNT_2), owner: ACCOUNT_OWNER, slot_time: 50 };
    let mut state = init().unwrap();
    state.add_token(TOKEN_0, url("a"));

    let params =
        AddParams { tokens: vec![AddTokenParams { token_id: TOKEN_1, metadata_url: url("b") }] };
    assert_eq!(add(&stranger, &mut state, &params), Err(ContractError::Unauthorized));
    let params = MintParams {
        owner: ACCOUNT_2,
        tokens: vec![(TOKEN_0, MintParam { amount: 10, expiry: 100 })],
    };
    assert_eq!(mint(&stranger, &mut state, &params), Err(ContractError::Unauthorized));
    let params = RemoveParams { tokens: vec![TOKEN_0] };
    assert_eq!(remove(&stranger, &mut state, &params), Err(ContractError::Unauthorized));

    assert!(state.has_token(TOKEN_0));
    assert!(!state.has_token(TOKEN_1));
    assert_eq!(state.get_account_balance_expiry(TOKEN_0, ACCOUNT_2), Ok(None));

    // An expired mint by a stranger is refused as a stranger's.
    let params = MintParams {
        owner: ACCOUNT_2,
        tokens: vec![(TOKEN_0, MintParam { amount: 10, expiry: 1 })],
    };
    assert_eq!(mint(&stranger, &mut state, &params), Err(ContractError::Unauthorized));
    assert_ne!(
        mint(&stranger, &mut state, &params),
        Err(ContractError::Custom(CustomError::TokenExpired))
    );
}
