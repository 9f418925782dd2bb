//! The rows of the chain: L2 blocks and the state-update logs seen on L1.

use crate::primitives::{BlockNumber, StarkHash};
use crate::table::Row;
use vstd::prelude::*;

verus! {

/// Hash of an L2 block.
#[derive(Clone, Copy, Debug, PartialEq, Eq, Structural, Hash)]
pub struct BlockHash(pub StarkHash);

/// Root of the global state tree.
#[derive(Clone, Copy, Debug, PartialEq, Eq, Structural, Hash)]
pub struct GlobalRoot(pub StarkHash);

/// Root of the storage tree of one contract.
#[derive(Clone, Copy, Debug, PartialEq, Eq, Structural, Hash)]
pub struct ContractRoot(pub StarkHash);

/// Address of a contract: its key in the global state tree.
#[derive(Clone, Copy, Debug, PartialEq, Eq, Structural, Hash)]
pub struct ContractAddress(pub StarkHash);

/// Hash of a contract definition.
#[derive(Clone, Copy, Debug, PartialEq, Eq, Structural, Hash)]
pub struct ClassHash(pub StarkHash);

/// Address of a cell in a contract's storage.
#[derive(Clone, Copy, Debug, PartialEq, Eq, Structural, Hash)]
pub struct StorageAddress(pub StarkHash);

/// Value of a cell in a contract's storage.
#[derive(Clone, Copy, Debug, PartialEq, Eq, Structural, Hash)]
pub struct StorageValue(pub StarkHash);

/// A 256-bit hash of the L1 chain, as four 64-bit limbs, the most
/// significant first.
#[derive(Clone, Copy, Debug, PartialEq, Eq, Structural, Hash)]
pub struct H256 {
    pub w3: u64,
    pub w2: u64,
    pub w1: u64,
    pub w0: u64,
}

/// The L1 block that a log was found in.
#[derive(Clone, Copy, Debug, PartialEq, Eq, Structural, Hash)]
pub struct BlockOrigin {
    pub hash: H256,
    pub number: u64,
}

/// The L1 transaction that emitted a log.
#[derive(Clone, Copy, Debug, PartialEq, Eq, Structural, Hash)]
pub struct TransactionOrigin {
    pub hash: H256,
    pub index: u64,
}

/// Where on L1 a log was observed.
#[derive(Clone, Copy, Debug, PartialEq, Eq, Structural, Hash)]
pub struct EthOrigin {
    pub block: BlockOrigin,
    pub transaction: TransactionOrigin,
    pub log_index: u64,
}

/// A state update as L1 announced it.
#[derive(Clone, Copy, Debug, PartialEq, Eq, Structural, Hash)]
pub struct StateUpdateLog {
    pub origin: EthOrigin,
    pub global_root: GlobalRoot,
    pub block_number: BlockNumber,
}

/// An L2 block as the store keeps it.
#[derive(Clone, Copy, Debug, PartialEq, Eq, Structural, Hash)]
pub struct StarknetBlock {
    pub number: BlockNumber,
    pub hash: BlockHash,
    pub root: GlobalRoot,
    pub timestamp: u64,
}

impl Row for StateUpdateLog {
    open spec fn height(&self) -> u64 {
        self.block_number.0
    }

    fn row_height(&self) -> (h: u64) {
        self.block_number.0
    }
}

impl Row for StarknetBlock {
    open spec fn height(&self) -> u64 {
        self.number.0
    }

    fn row_height(&self) -> (h: u64) {
        self.number.0
    }
}

/// Whether L2 holds a block at the height of `log` with the root that the
/// log announces.
pub open spec fn agrees_at(log: StateUpdateLog, l2: Map<u64, StarknetBlock>) -> bool {
    &&& l2.dom().contains(log.block_number.0)
    &&& l2[log.block_number.0].root == log.global_root
}

} // verus!
