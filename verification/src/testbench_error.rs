//! The error taxonomy of the program-test bench.

use vstd::prelude::*;

verus! {

/// What went wrong while driving a program-test context.
#[derive(Debug, Clone, Copy, PartialEq, Eq, Structural)]
pub enum TestbenchError {
    /// Could not fetch rent.
    RentError,
    /// Warping error.
    WarpingError,
    /// Account not found.
    AccountNotFound,
    /// Deserialize error.
    CouldNotDeserialize,
    /// Could not fetch latest blockhash.
    BlockhashError,
    /// Solana internal error.
    SolanaInternalError,
}

} // verus!
