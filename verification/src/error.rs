//! What can go wrong when state is read.

use vstd::prelude::*;

use crate::primitives::{Address, B256};

verus! {

/// What a fetch asks the node for.
#[derive(Clone, Copy, Debug, PartialEq, Eq, Structural)]
pub enum FetchKind {
    Account,
    Code,
    Storage,
    BlockHash,
}

/// Why a read gave no value.
#[derive(Debug)]
pub enum SimError {
    /// The fetch manager is gone.
    FetcherClosed,
    /// The fetch manager did not answer in time.
    FetchTimeout { kind: FetchKind, elapsed_ms: u64 },
    /// The state is stale, and stays so until a valid chain state arrives.
    StaleState,
    /// Code cannot be fetched by hash without an address that has it.
    MissingAddressHint { code_hash: B256 },
    /// The code at the address does not have the hash that was asked for.
    CodeHashMismatch { address: Address, expected: B256, actual: B256 },
    /// The node does not have the block.
    BlockNotFound(u64),
    /// The call did not reach the node or failed there; the node's own words.
    Rpc(String),
}

} // verus!
