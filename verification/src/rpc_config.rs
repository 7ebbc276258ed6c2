//! Plain configuration values for building RPC requests to a Solana cluster.

use vstd::prelude::*;

verus! {

/// Specifies which Solana cluster a client will query.
#[derive(Debug, Clone, Copy, PartialEq, Eq, Structural)]
pub enum Net {
    Localhost,
    Testnet,
    Devnet,
    Mainnet,
}

impl Net {
    /// The URL of the cluster's public RPC endpoint.
    pub fn to_url(&self) -> (r: &'static str)
        ensures
            r@ == match *self {
                Net::Localhost => "http://localhost:8899"@,
                Net::Testnet => "https://api.testnet.solana.com"@,
                Net::Devnet => "https://api.devnet.solana.com"@,
                Net::Mainnet => "https://api.mainnet-beta.solana.com"@,
            },
    {
        match self {
            Net::Localhost => "http://localhost:8899",
            Net::Testnet => "https://api.testnet.solana.com",
            Net::Devnet => "https://api.devnet.solana.com",
            Net::Mainnet => "https://api.mainnet-beta.solana.com",
        }
    }
}

/// The encoding of account data in an RPC request or response.
#[derive(Debug, Clone, Copy, PartialEq, Eq, Structural)]
pub enum Encoding {
    Base58,
    Base64,
    JsonParsed,
}

/// How finalized a block must be for a query to see it.
#[derive(Debug, Clone, Copy, PartialEq, Eq, Structural)]
pub enum CommitmentLevel {
    Processed,
    Confirmed,
    Finalized,
}

/// Configuration for building an RPC request.
#[derive(Debug, Clone)]
pub struct RpcConfig {
    pub encoding: Option<Encoding>,
    pub commitment: Option<CommitmentLevel>,
}

/// A commitment level, as the RPC request parameter object.
#[derive(Debug, Clone, Copy, PartialEq, Eq, Structural)]
pub struct CommitmentConfig {
    pub commitment: CommitmentLevel,
}

impl CommitmentConfig {
    /// The weakest commitment: the most recent processed block.
    pub fn processed() -> (r: Self)
        ensures
            r.commitment == CommitmentLevel::Processed,
    {
        Self { commitment: CommitmentLevel::Processed }
    }

    /// A confirmed block.
    pub fn confirmed() -> (r: Self)
        ensures
            r.commitment == CommitmentLevel::Confirmed,
    {
        Self { commitment: CommitmentLevel::Confirmed }
    }

    /// A finalized block.
    pub fn finalized() -> (r: Self)
        ensures
            r.commitment == CommitmentLevel::Finalized,
    {
        Self { commitment: CommitmentLevel::Finalized }
    }
}

/// Parameters of an airdrop request.
#[derive(Debug, Clone)]
pub struct RpcRequestAirdropConfig {
    pub recent_blockhash: Option<String>,
    pub commitment: Option<CommitmentLevel>,
}

/// Parameters of a send-transaction request.
#[derive(Debug, Clone)]
pub struct RpcTransactionConfig {
    pub skip_preflight: bool,
    pub preflight_commitment: Option<CommitmentLevel>,
    pub encoding: Option<Encoding>,
}

} // verus!
