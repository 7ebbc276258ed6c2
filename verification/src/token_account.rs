//! The plain shapes of token accounts as the cluster parses them.

use vstd::prelude::*;

verus! {

/// A token mint, as the cluster parses it.
#[derive(Debug, Clone)]
pub struct EncodedMint {
    pub decimals: u8,
    pub supply: String,
    pub freeze_authority: Option<String>,
    pub mint_authority: Option<String>,
    pub is_initialized: bool,
}

/// The lifecycle state of a token account.
#[derive(Debug, Clone, Copy, PartialEq, Eq, Structural)]
pub enum TokenAccountState {
    Uninitialized,
    Initialized,
    Frozen,
}

} // verus!
