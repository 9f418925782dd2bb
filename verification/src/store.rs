//! The chain as the node holds it: the L1 logs, the L2 blocks, the contract
//! definitions and the height up to which L1 and L2 were found to agree.

use crate::chain::{BlockHash, ClassHash, GlobalRoot, StarknetBlock, StateUpdateLog};
use crate::contracts::{existence, with_contract, ContractCode, ContractCodeTable, ContractDefinition};
use crate::primitives::{BlockNumber, StarkHash};
use crate::table::{below, fresh, keyed, top, with_rows, HeightTable};
use vstd::prelude::*;

verus! {

/// What a [`ChainStore`] holds.
pub struct ChainView {
    /// The L1 logs by the height they speak of.
    pub l1: Map<u64, StateUpdateLog>,
    /// The L2 blocks by their height.
    pub l2: Map<u64, StarknetBlock>,
    /// The height up to which L1 and L2 were found to agree.
    pub head: Option<BlockNumber>,
    /// The code of the contract definitions by their hash.
    pub contracts: Map<ClassHash, ContractCode>,
}

impl ChainView {
    /// The view of a store that holds nothing.
    pub open spec fn empty() -> ChainView {
        ChainView { l1: Map::empty(), l2: Map::empty(), head: None, contracts: Map::empty() }
    }

    /// Whether each log and each block is held under its own height.
    pub open spec fn keyed(self) -> bool {
        &&& keyed(self.l1)
        &&& keyed(self.l2)
    }

    /// The root of the global state tree to start the next block from: that
    /// of the highest block, or zero where there is no block.
    pub open spec fn latest_root(self) -> GlobalRoot {
        match top(self.l2) {
            Some(block) => block.root,
            None => GlobalRoot(StarkHash::spec_zero()),
        }
    }
}

/// The node's chain data.
pub struct ChainStore {
    l1: HeightTable<StateUpdateLog>,
    l2: HeightTable<StarknetBlock>,
    head: Option<BlockNumber>,
    contracts: ContractCodeTable,
}

impl ChainStore {
    /// Whether each table is in order.
    pub closed spec fn wf(&self) -> bool {
        &&& self.l1.wf()
        &&& self.l2.wf()
        &&& self.contracts.wf()
    }

    /// What the store holds.
    pub closed spec fn view(&self) -> ChainView {
        ChainView { l1: self.l1@, l2: self.l2@, head: self.head, contracts: self.contracts@ }
    }

    /// Each log and each block of a store is held under its own height.
    pub proof fn lemma_keyed(&self)
        requires
            self.wf(),
        ensures
            self@.keyed(),
    {
        self.l1.lemma_keyed();
        self.l2.lemma_keyed();
    }

    /// A store that holds nothing.
    pub fn new() -> (s: Self)
        ensures
            s.wf(),
            s@ == ChainView::empty(),
    {
        ChainStore {
            l1: HeightTable::new(),
            l2: HeightTable::new(),
            head: None,
            contracts: ContractCodeTable::new(),
        }
    }

    /// The L1 log that speaks of the height `number`.
    pub fn l1_log(&self, number: BlockNumber) -> (log: Option<StateUpdateLog>)
        requires
            self.wf(),
        ensures
            log == (if self@.l1.dom().contains(number.0) {
                Some(self@.l1[number.0])
            } else {
                None
            }),
            log matches Some(l) ==> l.block_number == number,
    {
        self.l1.get(number.0)
    }

    /// The L1 log of the greatest height.
    pub fn latest_l1_log(&self) -> (log: Option<StateUpdateLog>)
        requires
            self.wf(),
        ensures
            log == top(self@.l1),
    {
        self.l1.latest()
    }

    /// Stores `log`, unless a log of its height is stored already.
    ///
    /// Returns whether the log was stored.
    pub fn insert_l1_log(&mut self, log: StateUpdateLog) -> (stored: bool)
        requires
            old(self).wf(),
        ensures
            final(self).wf(),
            stored == !old(self)@.l1.dom().contains(log.block_number.0),
            stored ==> final(self)@ == (ChainView {
                l1: old(self)@.l1.insert(log.block_number.0, log),
                ..old(self)@
            }),
            !stored ==> final(self)@ == old(self)@,
    {
        self.l1.insert(log)
    }

    /// Stores all of `logs`, or none of them: none where two of them speak
    /// of one height or the store holds a log of one of their heights.
    ///
    /// Returns whether the logs were stored.
    pub fn insert_l1_logs(&mut self, logs: &Vec<StateUpdateLog>) -> (stored: bool)
        requires
            old(self).wf(),
        ensures
            final(self).wf(),
            stored == fresh(old(self)@.l1, logs@),
            stored ==> final(self)@ == (ChainView {
                l1: with_rows(old(self)@.l1, logs@),
                ..old(self)@
            }),
            !stored ==> final(self)@ == old(self)@,
    {
        self.l1.insert_all(logs)
    }

    /// Removes the L1 logs of the height `tail` and above.
    pub fn remove_l1_from(&mut self, tail: BlockNumber)
        requires
            old(self).wf(),
        ensures
            final(self).wf(),
            final(self)@ == (ChainView { l1: below(old(self)@.l1, tail.0), ..old(self)@ }),
    {
        self.l1.remove_from(tail.0)
    }

    /// The L2 block of the height `number`.
    pub fn block(&self, number: BlockNumber) -> (block: Option<StarknetBlock>)
        requires
            self.wf(),
        ensures
            block == (if self@.l2.dom().contains(number.0) {
                Some(self@.l2[number.0])
            } else {
                None
            }),
            block matches Some(b) ==> b.number == number,
    {
        self.l2.get(number.0)
    }

    /// The L2 block of the greatest height.
    pub fn latest_block(&self) -> (block: Option<StarknetBlock>)
        requires
            self.wf(),
        ensures
            block == top(self@.l2),
    {
        self.l2.latest()
    }

    /// The root of the global state tree to start the next block from.
    pub fn latest_root(&self) -> (root: GlobalRoot)
        requires
            self.wf(),
        ensures
            root == self@.latest_root(),
    {
        match self.l2.latest() {
            Some(row) => row.root,
            None => GlobalRoot(StarkHash::zero()),
        }
    }

    /// Stores `block`, unless a block of its height is stored already.
    ///
    /// Returns whether the block was stored.
    pub fn insert_block(&mut self, block: StarknetBlock) -> (stored: bool)
        requires
            old(self).wf(),
        ensures
            final(self).wf(),
            stored == !old(self)@.l2.dom().contains(block.number.0),
            stored ==> final(self)@ == (ChainView {
                l2: old(self)@.l2.insert(block.number.0, block),
                ..old(self)@
            }),
            !stored ==> final(self)@ == old(self)@,
    {
        self.l2.insert(block)
    }

    /// Removes the L2 blocks of the height `tail` and above.
    pub fn remove_l2_from(&mut self, tail: BlockNumber)
        requires
            old(self).wf(),
        ensures
            final(self).wf(),
            final(self)@ == (ChainView { l2: below(old(self)@.l2, tail.0), ..old(self)@ }),
    {
        self.l2.remove_from(tail.0)
    }

    /// The height up to which L1 and L2 were found to agree.
    pub fn l1_l2_head(&self) -> (head: Option<BlockNumber>)
        ensures
            head == self@.head,
    {
        self.head
    }

    /// Sets the height up to which L1 and L2 are held to agree.
    pub fn set_l1_l2_head(&mut self, head: Option<BlockNumber>)
        ensures
            final(self).wf() == old(self).wf(),
            final(self)@ == (ChainView { head: head, ..old(self)@ }),
    {
        self.head = head;
    }

    /// Stores `def` under its hash. A definition that is stored under that
    /// hash already stays, and the store does not change.
    pub fn insert_contract(&mut self, def: ContractDefinition)
        requires
            old(self).wf(),
        ensures
            final(self).wf(),
            final(self)@ == (ChainView {
                contracts: with_contract(old(self)@.contracts, def.hash, def.code()),
                ..old(self)@
            }),
    {
        self.contracts.insert_compressed(def)
    }

    /// For each hash of `hashes`, in order, whether a definition is stored
    /// under it.
    pub fn contracts_exist(&self, hashes: &Vec<ClassHash>) -> (found: Vec<bool>)
        requires
            self.wf(),
        ensures
            found@ == existence(self@.contracts, hashes@),
    {
        self.contracts.which_exist(hashes)
    }

    /// The hash of the L2 block of the height `number`.
    pub fn block_hash(&self, number: BlockNumber) -> (hash: Option<BlockHash>)
        requires
            self.wf(),
        ensures
            hash == (if self@.l2.dom().contains(number.0) {
                Some(self@.l2[number.0].hash)
            } else {
                None
            }),
    {
        match self.l2.get(number.0) {
            Some(row) => Some(row.hash),
            None => None,
        }
    }
}

} // verus!
