//! The RPC client's plain data types and the decoding of account data.

use agsol::account::{AccountData, AccountDataError, ParsedAccount};
use agsol::rpc_config::{CommitmentConfig, CommitmentLevel, Encoding, Net, RpcConfig};
use agsol::rpc_response::{Blockhash, Context, RpcResponse, RpcResultWithContext};
use agsol::testbench_error::TestbenchError;
use agsol::token_account::{EncodedMint, TokenAccountState};

#[test]
fn parse_borsh() {
    let owner: [u8; 32] = [7; 32];
    let test_data: (u8, [u8; 32], u64) = (123, owner, 987654321);

    let borsh_serialized = borsh::to_vec(&test_data).unwrap();
    let encoded = base64::encode(&borsh_serialized);

    let account_data = AccountData::Encoded(encoded, Encoding::Base64);

    let decoded = account_data.decoded_bytes().unwrap();
    assert_eq!(decoded, borsh_serialized);
    let deserialized: (u8, [u8; 32], u64) = borsh::from_slice(&decoded).unwrap();
    assert_eq!(test_data, deserialized);
}

#[test]
fn decode_rejects_invalid_base64() {
    let account_data = AccountData::Encoded("!!!not base64!!!".to_string(), Encoding::Base64);
    assert_eq!(account_data.decoded_bytes(), Err(AccountDataError::InvalidBase64));
}

#[test]
fn decode_rejects_other_encodings() {
    let account_data = AccountData::Encoded("3mJr7AoUXx2Wqd".to_string(), Encoding::Base58);
    assert_eq!(account_data.decoded_bytes(), Err(AccountDataError::UnsupportedEncoding));
}

#[test]
fn decode_rejects_parsed_documents() {
    let parsed = ParsedAccount {
        parsed: serde_json::Value::Null,
        program: "spl-token".to_string(),
        space: 165,
    };
    let account_data = AccountData::JsonParsed(parsed);
    assert_eq!(account_data.decoded_bytes(), Err(AccountDataError::NotEncoded));
    let parsed = ParsedAccount {
        parsed: serde_json::Value::Bool(true),
        program: "spl-token".to_string(),
        space: 165,
    };
    let value = AccountData::JsonParsed(parsed).parsed_value().unwrap();
    assert_eq!(value, serde_json::Value::Bool(true));
}

#[test]
fn cluster_urls() {
    assert_eq!(Net::Localhost.to_url(), "http://localhost:8899");
    assert_eq!(Net::Testnet.to_url(), "https://api.testnet.solana.com");
    assert_eq!(Net::Devnet.to_url(), "https://api.devnet.solana.com");
    assert_eq!(Net::Mainnet.to_url(), "https://api.mainnet-beta.solana.com");
}

#[test]
fn commitment_constructors() {
    assert_eq!(CommitmentConfig::processed().commitment, CommitmentLevel::Processed);
    assert_eq!(CommitmentConfig::confirmed().commitment, CommitmentLevel::Confirmed);
    assert_eq!(CommitmentConfig::finalized().commitment, CommitmentLevel::Finalized);
}

#[test]
fn response_shapes_hold_their_payload() {
    let response = RpcResponse {
        id: 1,
        jsonrpc: "2.0".to_string(),
        result: RpcResultWithContext { context: Context { slot: 42 }, value: 7_u64 },
    };
    assert_eq!(response.result.context.slot, 42);
    assert_eq!(response.result.value, 7);

    let blockhash = Blockhash {
        blockhash: "4uQeVj5tqViQh7yWWGStvkEG1Zmhx6uasJtWCJziofM".to_string(),
        last_valid_block_height: 1000,
    };
    assert_eq!(blockhash.last_valid_block_height, 1000);

    let config = RpcConfig {
        encoding: Some(Encoding::JsonParsed),
        commitment: Some(CommitmentLevel::Finalized),
    };
    assert_eq!(config.encoding, Some(Encoding::JsonParsed));

    let mint = EncodedMint {
        decimals: 6,
        supply: "1000000".to_string(),
        freeze_authority: None,
        mint_authority: None,
        is_initialized: true,
    };
    assert!(mint.is_initialized);
    assert_eq!(TokenAccountState::Frozen, TokenAccountState::Frozen);
    assert_ne!(TestbenchError::RentError, TestbenchError::WarpingError);
}
