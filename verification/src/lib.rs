//! Generation of synchronized TypeScript class definitions and borsh
//! (de)serialization schemas from annotated Rust data-structure declarations,
//! together with a few companion utilities: bounded collections with a
//! statically known maximum serialized length, and the plain data types used
//! by an RPC client for the Solana blockchain.

pub mod account;
pub mod bounded;
pub mod field;
pub mod layout;
pub mod locked_item;
pub mod max_len_btree;
pub mod max_len_string;
pub mod max_len_vec;
pub mod max_serialized_len;
pub mod pipeline;
pub mod resolve;
pub mod rpc_config;
pub mod rpc_response;
pub mod scan;
pub mod signer_pda;
pub mod testbench_error;
pub mod text;
pub mod token_account;
pub mod ty;
