//! The plain shapes of RPC responses: the JSON-RPC envelope, the slot context
//! that some queries attach, and the blockhash payload.

use vstd::prelude::*;

verus! {

/// The JSON-RPC response envelope around a result payload.
#[derive(Debug)]
pub struct RpcResponse<T> {
    pub id: u64,
    pub jsonrpc: String,
    pub result: T,
}

/// The slot at which a response was produced.
#[derive(Debug, Clone, Copy, PartialEq, Eq, Structural)]
pub struct Context {
    pub slot: u64,
}

/// A result payload together with its slot context.
#[derive(Debug)]
pub struct RpcResultWithContext<T> {
    pub context: Context,
    pub value: T,
}

/// The payload of a blockhash query.
#[derive(Debug, Clone)]
pub struct Blockhash {
    pub blockhash: String,
    pub last_valid_block_height: u64,
}

} // verus!
