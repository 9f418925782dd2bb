//! Replaying the state diff of a block against the global state tree.
//!
//! The tree itself and its hash are not here: the updater says, contract by
//! contract, what is to be hashed, takes the contract state hash that came
//! of it, and keeps the leaves that the diff has written so far. Deployed
//! contracts come before updated ones, each list in its own order, and of
//! two writes to one address the later one stands.

use crate::chain::{ClassHash, ContractAddress, ContractRoot, GlobalRoot, StorageAddress, StorageValue};
use crate::primitives::StarkHash;
use crate::store::ChainStore;
use vstd::prelude::*;

verus! {

/// Hash of the state of a contract: of its class hash and the root of its
/// storage. The leaves of the global state tree are of this kind.
#[derive(Clone, Copy, Debug, PartialEq, Eq, Structural, Hash)]
pub struct ContractStateHash(pub StarkHash);

/// A contract that a block deploys.
#[derive(Clone, Copy, Debug, PartialEq, Eq, Structural)]
pub struct DeployedContract {
    pub address: ContractAddress,
    pub hash: ClassHash,
}

/// A write to one cell of a contract's storage.
#[derive(Clone, Copy, Debug, PartialEq, Eq, Structural)]
pub struct StorageUpdate {
    pub address: StorageAddress,
    pub value: StorageValue,
}

/// The writes of a block to the storage of one contract.
#[derive(Debug)]
pub struct ContractUpdate {
    pub address: ContractAddress,
    pub storage_updates: Vec<StorageUpdate>,
}

/// What a block does to the state.
#[derive(Debug)]
pub struct StateDiff {
    pub deployed_contracts: Vec<DeployedContract>,
    pub contract_updates: Vec<ContractUpdate>,
}

/// A write to a leaf of the global state tree.
#[derive(Clone, Copy, Debug, PartialEq, Eq, Structural)]
pub struct LeafWrite {
    pub address: ContractAddress,
    pub state_hash: ContractStateHash,
}

/// What is to be stored of a deployed contract beside its leaf: the state
/// hash with the class hash and the storage root that it was made of, and
/// the class hash under the address.
#[derive(Clone, Copy, Debug, PartialEq, Eq, Structural)]
pub struct DeployedRows {
    pub state_hash: ContractStateHash,
    pub hash: ClassHash,
    pub contract_root: ContractRoot,
    pub address: ContractAddress,
}

/// The leaves after the writes `writes`, made in order: of two writes to one
/// address the later one stands.
pub open spec fn leaves_of(writes: Seq<LeafWrite>) -> Map<ContractAddress, ContractStateHash>
    decreases writes.len(),
{
    if writes.len() == 0 {
        Map::empty()
    } else {
        leaves_of(writes.drop_last()).insert(writes.last().address, writes.last().state_hash)
    }
}

/// The leaf at `address`, if one was written.
pub open spec fn leaf_at(writes: Seq<LeafWrite>, address: ContractAddress) -> Option<
    ContractStateHash,
> {
    if leaves_of(writes).dom().contains(address) {
        Some(leaves_of(writes)[address])
    } else {
        None
    }
}

/// The last write wins: a leaf has the state hash of the write to its
/// address after which no other write went to that address; and a leaf that
/// no write went to was not written.
pub proof fn lemma_last_write_wins(writes: Seq<LeafWrite>, address: ContractAddress)
    ensures
        forall|i: int|
            0 <= i < writes.len() && (#[trigger] writes[i]).address == address && (forall|j: int|
                i < j < writes.len() ==> (#[trigger] writes[j]).address != address) ==> leaf_at(
                writes,
                address,
            ) == Some(writes[i].state_hash),
        (forall|i: int| 0 <= i < writes.len() ==> (#[trigger] writes[i]).address != address)
            ==> leaf_at(writes, address) is None,
    decreases writes.len(),
{
    if writes.len() > 0 {
        let before = writes.drop_last();
        lemma_last_write_wins(before, address);
        assert forall|i: int|
            0 <= i < writes.len() && (#[trigger] writes[i]).address == address && (forall|j: int|
                i < j < writes.len() ==> (#[trigger] writes[j]).address != address) implies leaf_at(
            writes,
            address,
        ) == Some(writes[i].state_hash) by {
            if i < writes.len() - 1 {
                assert(writes[writes.len() - 1].address != address);
                assert(before[i] == writes[i]);
                assert forall|j: int| i < j < before.len() implies (#[trigger] before[j]).address
                    != address by {
                    assert(before[j] == writes[j]);
                }
            }
        }
        if forall|i: int| 0 <= i < writes.len() ==> (#[trigger] writes[i]).address != address {
            assert(writes[writes.len() - 1].address != address);
            assert forall|i: int| 0 <= i < before.len() implies (#[trigger] before[i]).address
                != address by {
                assert(before[i] == writes[i]);
            }
        }
    }
}

/// The leaves that a diff has written to the global state tree, on top of
/// the tree with the root that the diff starts from.
#[derive(Debug)]
pub struct GlobalStateTree {
    root: GlobalRoot,
    writes: Vec<LeafWrite>,
}

impl GlobalStateTree {
    /// The root that the writes go on top of.
    pub closed spec fn base(&self) -> GlobalRoot {
        self.root
    }

    /// The writes so far, in order.
    pub closed spec fn written(&self) -> Seq<LeafWrite> {
        self.writes@
    }

    /// The tree with the root `root`, with nothing written to it.
    pub fn load(root: GlobalRoot) -> (t: Self)
        ensures
            t.base() == root,
            t.written() == Seq::<LeafWrite>::empty(),
    {
        GlobalStateTree { root, writes: Vec::new() }
    }

    /// Writes the leaf at `address`.
    pub fn set(&mut self, address: ContractAddress, value: ContractStateHash)
        ensures
            final(self).base() == old(self).base(),
            final(self).written() == old(self).written().push(
                LeafWrite { address: address, state_hash: value },
            ),
    {
        self.writes.push(LeafWrite { address, state_hash: value });
    }

    /// The leaf at `address` as far as it was written here.
    pub fn get(&self, address: ContractAddress) -> (leaf: Option<ContractStateHash>)
        ensures
            leaf == leaf_at(self.written(), address),
    {
        let mut i: usize = self.writes.len();
        while i > 0
            invariant
                i <= self.writes.len(),
                forall|j: int| i <= j < self.writes@.len() ==> (#[trigger] self.writes@[j]).address
                    != address,
            decreases i,
        {
            if self.writes[i - 1].address == address {
                proof {
                    lemma_last_write_wins(self.writes@, address);
                }
                return Some(self.writes[i - 1].state_hash);
            }
            i = i - 1;
        }
        proof {
            lemma_last_write_wins(self.writes@, address);
        }
        None
    }

    /// Hands over what is to be flushed: the root that the writes go on top
    /// of, and the writes in order.
    pub fn apply(self) -> (flush: (GlobalRoot, Vec<LeafWrite>))
        ensures
            flush.0 == self.base(),
            flush.1@ == self.written(),
    {
        (self.root, self.writes)
    }
}

/// Adds a new contract to the global tree, with the state hash
/// `state_hash` that was made of its class hash and the storage root zero.
///
/// Returns what is to be stored of the contract beside its leaf.
pub fn deploy_contract(
    global_tree: &mut GlobalStateTree,
    contract: DeployedContract,
    state_hash: ContractStateHash,
) -> (rows: DeployedRows)
    ensures
        final(global_tree).base() == old(global_tree).base(),
        final(global_tree).written() == old(global_tree).written().push(
            LeafWrite { address: contract.address, state_hash: state_hash },
        ),
        rows == (DeployedRows {
            state_hash: state_hash,
            hash: contract.hash,
            contract_root: ContractRoot(StarkHash::spec_zero()),
            address: contract.address,
        }),
{
    let contract_root = ContractRoot(StarkHash::zero());
    global_tree.set(contract.address, state_hash);
    DeployedRows { state_hash, hash: contract.hash, contract_root, address: contract.address }
}

/// What is to be computed next for a diff.
#[derive(Clone, Copy, Debug, PartialEq, Eq, Structural)]
pub enum Work {
    /// The state hash of a contract that is deployed: of `hash` and
    /// `contract_root`, which is zero.
    Deploy { address: ContractAddress, hash: ClassHash, contract_root: ContractRoot },
    /// The state hash of the contract at `address` after the storage writes
    /// of the update at `index`. `current` is the leaf that this diff has
    /// written for the contract so far, if it has.
    Update { index: usize, address: ContractAddress, current: Option<ContractStateHash> },
    /// All leaves are written: the tree is to be flushed.
    Apply,
}

/// The addresses that a diff writes to, in the order of its writes: those of
/// the deployed contracts, then those of the updated ones.
pub open spec fn targets(
    deployed: Seq<DeployedContract>,
    updated: Seq<ContractUpdate>,
) -> Seq<ContractAddress> {
    Seq::new(
        deployed.len() + updated.len(),
        |i: int|
            if i < deployed.len() {
                deployed[i].address
            } else {
                updated[i - deployed.len()].address
            },
    )
}

/// A diff on its way into the global state tree.
#[derive(Debug)]
pub struct StateUpdater {
    tree: GlobalStateTree,
    deployed_contracts: Vec<DeployedContract>,
    contract_updates: Vec<ContractUpdate>,
    done: usize,
}

impl StateUpdater {
    /// Whether each write so far went to the address whose turn it was.
    pub closed spec fn wf(&self) -> bool {
        &&& self.deployed_contracts@.len() + self.contract_updates@.len() <= usize::MAX
        &&& self.done <= self.deployed_contracts@.len() + self.contract_updates@.len()
        &&& self.tree.written().len() == self.done
        &&& forall|i: int|
            0 <= i < self.done ==> (#[trigger] self.tree.written()[i]).address == targets(
                self.deployed_contracts@,
                self.contract_updates@,
            )[i]
    }

    /// The root that the diff starts from.
    pub closed spec fn base(&self) -> GlobalRoot {
        self.tree.base()
    }

    /// The contracts that the diff deploys.
    pub closed spec fn deployed(&self) -> Seq<DeployedContract> {
        self.deployed_contracts@
    }

    /// The contracts that the diff updates.
    pub closed spec fn updated(&self) -> Seq<ContractUpdate> {
        self.contract_updates@
    }

    /// The writes so far, in order.
    pub closed spec fn written(&self) -> Seq<LeafWrite> {
        self.tree.written()
    }

    /// What is to be computed next.
    pub open spec fn work(&self) -> Work {
        let done = self.written().len() as int;
        if done < self.deployed().len() {
            Work::Deploy {
                address: self.deployed()[done].address,
                hash: self.deployed()[done].hash,
                contract_root: ContractRoot(StarkHash::spec_zero()),
            }
        } else if done < self.deployed().len() + self.updated().len() {
            Work::Update {
                index: (done - self.deployed().len()) as usize,
                address: self.updated()[done - self.deployed().len()].address,
                current: leaf_at(
                    self.written(),
                    self.updated()[done - self.deployed().len()].address,
                ),
            }
        } else {
            Work::Apply
        }
    }

    /// Starts on the diff, from the tree with the root `root`.
    pub fn new(root: GlobalRoot, diff: StateDiff) -> (u: Self)
        requires
            diff.deployed_contracts@.len() + diff.contract_updates@.len() <= usize::MAX,
        ensures
            u.wf(),
            u.base() == root,
            u.deployed() == diff.deployed_contracts@,
            u.updated() == diff.contract_updates@,
            u.written() == Seq::<LeafWrite>::empty(),
    {
        StateUpdater {
            tree: GlobalStateTree::load(root),
            deployed_contracts: diff.deployed_contracts,
            contract_updates: diff.contract_updates,
            done: 0,
        }
    }

    /// What is to be computed next.
    pub fn next(&self) -> (work: Work)
        requires
            self.wf(),
        ensures
            work == self.work(),
    {
        let n = self.deployed_contracts.len();
        if self.done < n {
            let contract = self.deployed_contracts[self.done];
            Work::Deploy {
                address: contract.address,
                hash: contract.hash,
                contract_root: ContractRoot(StarkHash::zero()),
            }
        } else if self.done - n < self.contract_updates.len() {
            let index = self.done - n;
            let address = self.contract_updates[index].address;
            Work::Update { index, address, current: self.tree.get(address) }
        } else {
            Work::Apply
        }
    }

    /// The storage writes of the update at `index`.
    pub fn storage_updates(&self, index: usize) -> (writes: &Vec<StorageUpdate>)
        requires
            index < self.updated().len(),
        ensures
            writes@ == self.updated()[index as int].storage_updates@,
    {
        &self.contract_updates[index].storage_updates
    }

    /// Takes the state hash that came of the present work and writes it to
    /// the leaf of the contract. Where all leaves are written, nothing
    /// changes.
    ///
    /// Returns, for a deployed contract, what is to be stored of it beside
    /// its leaf.
    pub fn supply(&mut self, state_hash: ContractStateHash) -> (rows: Option<DeployedRows>)
        requires
            old(self).wf(),
        ensures
            final(self).wf(),
            final(self).base() == old(self).base(),
            final(self).deployed() == old(self).deployed(),
            final(self).updated() == old(self).updated(),
            match old(self).work() {
                Work::Deploy { address, hash, contract_root } => final(self).written() == old(
                    self,
                ).written().push(LeafWrite { address: address, state_hash: state_hash }) && rows
                    == Some(
                    DeployedRows {
                        state_hash: state_hash,
                        hash: hash,
                        contract_root: contract_root,
                        address: address,
                    },
                ),
                Work::Update { index, address, current } => final(self).written() == old(
                    self,
                ).written().push(LeafWrite { address: address, state_hash: state_hash }) && rows
                    is None,
                Work::Apply => final(self).written() == old(self).written() && rows is None,
            },
    {
        let n = self.deployed_contracts.len();
        if self.done < n {
            let contract = self.deployed_contracts[self.done];
            let rows = deploy_contract(&mut self.tree, contract, state_hash);
            self.done = self.done + 1;
            Some(rows)
        } else if self.done - n < self.contract_updates.len() {
            let address = self.contract_updates[self.done - n].address;
            self.tree.set(address, state_hash);
            self.done = self.done + 1;
            None
        } else {
            None
        }
    }

    /// Hands over what is to be flushed: the root that the diff started
    /// from, and the writes in order.
    pub fn finish(self) -> (flush: (GlobalRoot, Vec<LeafWrite>))
        requires
            self.wf(),
        ensures
            flush.0 == self.base(),
            flush.1@ == self.written(),
    {
        self.tree.apply()
    }
}

/// Starts on the diff of the next block: from the root of the highest block
/// that the store holds, or from zero where it holds none.
pub fn update_starknet_state(store: &ChainStore, diff: StateDiff) -> (u: StateUpdater)
    requires
        store.wf(),
        diff.deployed_contracts@.len() + diff.contract_updates@.len() <= usize::MAX,
    ensures
        u.wf(),
        u.base() == store@.latest_root(),
        u.deployed() == diff.deployed_contracts@,
        u.updated() == diff.contract_updates@,
        u.written() == Seq::<LeafWrite>::empty(),
{
    StateUpdater::new(store.latest_root(), diff)
}

/// When all leaves of a diff are written, each went to the address whose
/// turn it was: first those of the deployed contracts, then those of the
/// updated ones, each list in its own order.
pub proof fn lemma_writes_follow_diff(u: StateUpdater)
    requires
        u.wf(),
        u.work() is Apply,
    ensures
        u.written().len() == u.deployed().len() + u.updated().len(),
        forall|i: int|
            0 <= i < u.written().len() ==> (#[trigger] u.written()[i]).address == targets(
                u.deployed(),
                u.updated(),
            )[i],
{
}

} // verus!
