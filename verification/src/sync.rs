//! The sync driver: what each event of the L1 and L2 producers does to the
//! store, and what is owed to the producer afterwards.

use crate::chain::{BlockHash, ClassHash, GlobalRoot, StarknetBlock, StateUpdateLog};
use crate::contracts::{existence, with_contract, ContractDefinition};
use crate::primitives::{BlockNumber, StarkHash};
use crate::reconcile::{l1_forward, l1_forward_head, l2_forward, l2_forward_head, retract, retract_head};
use crate::store::{ChainStore, ChainView};
use crate::table::{below, fresh, top, with_rows};
use vstd::prelude::*;

verus! {

/// How far the sequencer has taken a block.
#[derive(Clone, Copy, Debug, PartialEq, Eq, Structural)]
pub enum BlockStatus {
    NotReceived,
    Received,
    Pending,
    Rejected,
    AcceptedOnL1,
    AcceptedOnL2,
}

/// A block as the sequencer replies with it. `T` is a transaction and `R`
/// its receipt; the driver pairs them up and never looks inside.
#[derive(Debug)]
pub struct Block<T, R> {
    pub block_hash: Option<BlockHash>,
    pub block_number: Option<BlockNumber>,
    pub parent_block_hash: BlockHash,
    pub state_root: Option<GlobalRoot>,
    pub status: BlockStatus,
    pub timestamp: u64,
    pub transaction_receipts: Vec<R>,
    pub transactions: Vec<T>,
}

impl<T, R> Block<T, R> {
    /// Whether the block has its height, hash and state root. Only a pending
    /// block lacks them.
    pub open spec fn complete(&self) -> bool {
        &&& self.block_hash is Some
        &&& self.block_number is Some
        &&& self.state_root is Some
    }

    /// The row that the store keeps of the block.
    pub open spec fn row(&self) -> StarknetBlock {
        StarknetBlock {
            number: self.block_number->0,
            hash: self.block_hash->0,
            root: self.state_root->0,
            timestamp: self.timestamp,
        }
    }

    /// Whether the block has its height, hash and state root.
    pub fn is_complete(&self) -> (b: bool)
        ensures
            b == self.complete(),
    {
        self.block_hash.is_some() && self.block_number.is_some() && self.state_root.is_some()
    }
}

/// Why the driver gives up.
#[derive(Clone, Copy, Debug, PartialEq, Eq, Structural)]
pub enum SyncError {
    /// A log from L1 speaks of a height that another log speaks of already.
    DuplicateStateUpdate,
    /// A block from L2 has a height that the store holds a block of already.
    DuplicateBlock,
    /// The root that the state tree came to is not the root of the block.
    StateRootMismatch,
    /// A block does not have one receipt for each transaction.
    TransactionsReceiptsMismatch { transactions: usize, receipts: usize },
}

/// The elements of `a` and `b` in pairs.
pub open spec fn zip_spec<T, R>(a: Seq<T>, b: Seq<R>) -> Seq<(T, R)> {
    Seq::new(a.len(), |i: int| (a[i], b[i]))
}

/// The store after the logs `updates` came in from L1.
pub open spec fn l1_updated(v: ChainView, updates: Seq<StateUpdateLog>) -> ChainView {
    ChainView { l1: with_rows(v.l1, updates), head: l1_forward_head(v.head, updates, v.l2), ..v }
}

/// The store after L1 reorganised from the height `tail` on.
pub open spec fn l1_reorged(v: ChainView, tail: BlockNumber) -> ChainView {
    ChainView { l1: below(v.l1, tail.0), head: retract_head(v.head, tail), ..v }
}

/// The store after L2 reorganised from the height `tail` on.
pub open spec fn l2_reorged(v: ChainView, tail: BlockNumber) -> ChainView {
    ChainView { l2: below(v.l2, tail.0), head: retract_head(v.head, tail), ..v }
}

/// The store after the block `row` was added to L2.
pub open spec fn l2_updated(v: ChainView, row: StarknetBlock) -> ChainView {
    ChainView { l2: v.l2.insert(row.number.0, row), head: l2_forward_head(v.head, row, v.l1), ..v }
}

/// What a block from L2 comes to, where the state tree came to the root
/// `new_root` for it: the store with the block, or the reason why the block
/// is turned down.
pub open spec fn l2_update_result<T, R>(
    v: ChainView,
    block: Block<T, R>,
    new_root: GlobalRoot,
) -> Result<ChainView, SyncError> {
    if new_root != block.row().root {
        Err(SyncError::StateRootMismatch)
    } else if v.l2.dom().contains(block.row().number.0) {
        Err(SyncError::DuplicateBlock)
    } else if block.transactions@.len() != block.transaction_receipts@.len() {
        Err(
            SyncError::TransactionsReceiptsMismatch {
                transactions: block.transactions@.len() as usize,
                receipts: block.transaction_receipts@.len() as usize,
            },
        )
    } else {
        Ok(l2_updated(v, block.row()))
    }
}

/// Pairs each element of `a` with the element of `b` at its place.
pub fn zip_pairs<T, R>(a: Vec<T>, b: Vec<R>) -> (pairs: Vec<(T, R)>)
    requires
        a@.len() == b@.len(),
    ensures
        pairs@ == zip_spec(a@, b@),
{
    let mut a = a;
    let mut b = b;
    let ghost a0 = a@;
    let ghost b0 = b@;
    let mut backwards: Vec<(T, R)> = Vec::new();
    while a.len() > 0
        invariant
            a@.len() == b@.len(),
            a0.len() == b0.len(),
            a@.len() + backwards@.len() == a0.len(),
            a@ == a0.take(a@.len() as int),
            b@ == b0.take(b@.len() as int),
            forall|k: int|
                0 <= k < backwards@.len() ==> #[trigger] backwards@[k] == (
                    a0[a0.len() - 1 - k],
                    b0[a0.len() - 1 - k],
                ),
        decreases a@.len(),
    {
        let x = a.pop().unwrap();
        let y = b.pop().unwrap();
        backwards.push((x, y));
    }
    let mut pairs: Vec<(T, R)> = Vec::new();
    let ghost all = backwards@;
    while backwards.len() > 0
        invariant
            all.len() == a0.len(),
            a0.len() == b0.len(),
            backwards@ == all.take(backwards@.len() as int),
            pairs@.len() + backwards@.len() == all.len(),
            forall|k: int| 0 <= k < all.len() ==> #[trigger] all[k] == (
                a0[a0.len() - 1 - k],
                b0[a0.len() - 1 - k],
            ),
            forall|k: int| 0 <= k < pairs@.len() ==> #[trigger] pairs@[k] == (a0[k], b0[k]),
        decreases backwards@.len(),
    {
        let p = backwards.pop().unwrap();
        pairs.push(p);
    }
    assert(pairs@ =~= zip_spec(a0, b0));
    pairs
}

/// Takes the logs `updates` from L1 into the store and moves the agreed
/// height forward as far as they agree with L2.
///
/// Nothing is stored where two logs speak of one height, or one speaks of a
/// height that the store holds a log of.
pub fn l1_update(store: &mut ChainStore, updates: &Vec<StateUpdateLog>) -> (r: Result<
    (),
    SyncError,
>)
    requires
        old(store).wf(),
    ensures
        final(store).wf(),
        fresh(old(store)@.l1, updates@) ==> r is Ok && final(store)@ == l1_updated(
            old(store)@,
            updates@,
        ),
        !fresh(old(store)@.l1, updates@) ==> r == Err::<(), SyncError>(
            SyncError::DuplicateStateUpdate,
        ) && final(store)@ == old(store)@,
{
    if !store.insert_l1_logs(updates) {
        return Err(SyncError::DuplicateStateUpdate);
    }
    let head = l1_forward(store, updates);
    store.set_l1_l2_head(head);
    Ok(())
}

/// Drops the L1 logs from the height `reorg_tail` on and takes the agreed
/// height back below it.
pub fn l1_reorg(store: &mut ChainStore, reorg_tail: BlockNumber)
    requires
        old(store).wf(),
    ensures
        final(store).wf(),
        final(store)@ == l1_reorged(old(store)@, reorg_tail),
{
    store.remove_l1_from(reorg_tail);
    let head = retract(store.l1_l2_head(), reorg_tail);
    store.set_l1_l2_head(head);
}

/// Drops the L2 blocks from the height `reorg_tail` on and takes the agreed
/// height back below it.
pub fn l2_reorg(store: &mut ChainStore, reorg_tail: BlockNumber)
    requires
        old(store).wf(),
    ensures
        final(store).wf(),
        final(store)@ == l2_reorged(old(store)@, reorg_tail),
{
    store.remove_l2_from(reorg_tail);
    let head = retract(store.l1_l2_head(), reorg_tail);
    store.set_l1_l2_head(head);
}

/// Takes a block from L2 into the store, where `new_root` is the root that
/// the state tree came to for it, and moves the agreed height forward where
/// L1 announced that root.
///
/// Returns the transactions paired with their receipts. Nothing is stored
/// where the block is turned down.
pub fn l2_update<T, R>(store: &mut ChainStore, block: Block<T, R>, new_root: GlobalRoot) -> (r:
    Result<Vec<(T, R)>, SyncError>)
    requires
        old(store).wf(),
        block.complete(),
    ensures
        final(store).wf(),
        match l2_update_result(old(store)@, block, new_root) {
            Ok(v) => final(store)@ == v && r is Ok && r->Ok_0@ == zip_spec(
                block.transactions@,
                block.transaction_receipts@,
            ),
            Err(e) => final(store)@ == old(store)@ && r == Err::<Vec<(T, R)>, SyncError>(e),
        },
{
    let Block {
        block_hash,
        block_number,
        parent_block_hash: _,
        state_root,
        status: _,
        timestamp,
        transaction_receipts,
        transactions,
    } = block;
    let row = StarknetBlock {
        number: block_number.unwrap(),
        hash: block_hash.unwrap(),
        root: state_root.unwrap(),
        timestamp,
    };
    if new_root != row.root {
        return Err(SyncError::StateRootMismatch);
    }
    if store.block(row.number).is_some() {
        return Err(SyncError::DuplicateBlock);
    }
    if transactions.len() != transaction_receipts.len() {
        return Err(
            SyncError::TransactionsReceiptsMismatch {
                transactions: transactions.len(),
                receipts: transaction_receipts.len(),
            },
        );
    }
    store.insert_block(row);
    let head = l2_forward(store, &row);
    store.set_l1_l2_head(head);
    Ok(zip_pairs(transactions, transaction_receipts))
}

/// The three block hashes that a syncing node advertises.
#[derive(Clone, Copy, Debug, PartialEq, Eq, Structural)]
pub struct Status {
    pub starting_block: BlockHash,
    pub current_block: BlockHash,
    pub highest_block: BlockHash,
}

/// What the node advertises of its sync.
#[derive(Clone, Copy, Debug, PartialEq, Eq, Structural)]
pub enum SyncStatus {
    False(bool),
    Status(Status),
}

/// The state that the driver shares with the rest of the node.
#[derive(Clone, Copy, Debug, PartialEq, Eq, Structural)]
pub struct State {
    pub status: SyncStatus,
}

impl State {
    /// Notes that the block with the hash `current` was taken in. A node
    /// that advertises no sync stays so.
    pub fn set_current_block(&mut self, current: BlockHash)
        ensures
            final(self).status == status_with_current(old(self).status, current),
    {
        match self.status {
            SyncStatus::False(_) => {},
            SyncStatus::Status(st) => {
                self.status = SyncStatus::Status(Status { current_block: current, ..st });
            },
        }
    }
}

impl Default for State {
    fn default() -> (s: Self)
        ensures
            s.status == SyncStatus::False(false),
    {
        State { status: SyncStatus::False(false) }
    }
}

/// The status after the sequencer named `latest` as its newest block: a
/// node that advertised none starts from `starting_block`, one that
/// advertised some has a new highest block.
pub open spec fn status_with_latest(
    status: SyncStatus,
    starting_block: BlockHash,
    latest: BlockHash,
) -> SyncStatus {
    match status {
        SyncStatus::False(_) => SyncStatus::Status(
            Status {
                starting_block: starting_block,
                current_block: starting_block,
                highest_block: latest,
            },
        ),
        SyncStatus::Status(st) => SyncStatus::Status(Status { highest_block: latest, ..st }),
    }
}

/// The status after the block with the hash `current` was taken in. A node
/// that advertises no sync stays so.
pub open spec fn status_with_current(status: SyncStatus, current: BlockHash) -> SyncStatus {
    match status {
        SyncStatus::False(_) => status,
        SyncStatus::Status(st) => SyncStatus::Status(Status { current_block: current, ..st }),
    }
}

/// Takes the sequencer's newest block hash `latest` into the status.
///
/// Returns whether the status changed.
pub fn update_sync_status_latest(state: &mut State, starting_block: BlockHash, latest: BlockHash) -> (changed:
    bool)
    ensures
        final(state).status == status_with_latest(old(state).status, starting_block, latest),
        changed == (final(state).status != old(state).status),
{
    match state.status {
        SyncStatus::False(_) => {
            state.status = SyncStatus::Status(
                Status {
                    starting_block: starting_block,
                    current_block: starting_block,
                    highest_block: latest,
                },
            );
            true
        },
        SyncStatus::Status(st) => {
            if st.highest_block != latest {
                state.status = SyncStatus::Status(Status { highest_block: latest, ..st });
                true
            } else {
                false
            }
        },
    }
}

/// What the L1 producer sends to the driver.
#[derive(Debug)]
pub enum L1Event {
    /// New logs.
    Update(Vec<StateUpdateLog>),
    /// L1 reorganised from this height on.
    Reorg(BlockNumber),
    /// The producer asks for the log of this height.
    QueryUpdate(BlockNumber),
    /// The producer closed its channel.
    Closed,
}

/// What the L2 producer sends to the driver.
#[derive(Debug)]
pub enum L2Event<T, R> {
    /// A new block, and the root that the state tree came to for its diff.
    Update(Block<T, R>, GlobalRoot),
    /// L2 reorganised from this height on.
    Reorg(BlockNumber),
    /// A contract definition that a block deploys.
    NewContract(ContractDefinition),
    /// The producer asks for the hash of the block of this height.
    QueryHash(BlockNumber),
    /// The producer asks which of these definitions the store holds.
    QueryContractExistance(Vec<ClassHash>),
    /// The producer closed its channel.
    Closed,
}

/// An event of either producer.
#[derive(Debug)]
pub enum Event<T, R> {
    L1(L1Event),
    L2(L2Event<T, R>),
}

/// What the driver owes after an event of the L1 producer.
#[derive(Clone, Copy, Debug, PartialEq, Eq, Structural)]
pub enum L1Effect {
    /// The logs are stored.
    Updated,
    /// The logs from the tail on are gone; the highest height that L1 can
    /// still have.
    Reorged { new_head: Option<BlockNumber> },
    /// The answer to a query for a log.
    UpdateReply(Option<StateUpdateLog>),
    /// The producer is to be started again from this log.
    Restart { head: Option<StateUpdateLog> },
}

/// What the driver owes after an event of the L2 producer.
#[derive(Debug)]
pub enum L2Effect<T, R> {
    /// The block is stored; its transactions with their receipts.
    Updated { transaction_data: Vec<(T, R)> },
    /// The blocks from the tail on are gone; the highest height that L2 can
    /// still have.
    Reorged { new_head: Option<BlockNumber> },
    /// The definition is stored.
    ContractInserted,
    /// The answer to a query for a block hash.
    HashReply(Option<BlockHash>),
    /// The answer to a query for definitions, with the number of hashes
    /// asked for and the number of them found.
    ExistenceReply { exists: Vec<bool>, queried: usize, found: usize },
    /// The producer is to be started again from this block.
    Restart { head: Option<(BlockNumber, BlockHash)> },
}

/// What the driver owes after an event.
#[derive(Debug)]
pub enum Effect<T, R> {
    L1(L1Effect),
    L2(L2Effect<T, R>),
}

/// How many elements of `s` are `true`.
pub open spec fn count_true(s: Seq<bool>) -> nat
    decreases s.len(),
{
    if s.len() == 0 {
        0
    } else {
        count_true(s.drop_last()) + if s.last() {
            1nat
        } else {
            0nat
        }
    }
}

/// The row stored under `h`, if there is one.
pub open spec fn lookup<R>(m: Map<u64, R>, h: u64) -> Option<R> {
    if m.dom().contains(h) {
        Some(m[h])
    } else {
        None
    }
}

/// Height and hash of the highest L2 block: where the L2 producer resumes.
pub open spec fn l2_head(v: ChainView) -> Option<(BlockNumber, BlockHash)> {
    match top(v.l2) {
        Some(block) => Some((block.number, block.hash)),
        None => None,
    }
}

/// What an event of the L1 producer comes to: the store after it, or the
/// reason why the driver gives up.
pub open spec fn l1_event_result(v: ChainView, e: L1Event) -> Result<ChainView, SyncError> {
    match e {
        L1Event::Update(updates) => if fresh(v.l1, updates@) {
            Ok(l1_updated(v, updates@))
        } else {
            Err(SyncError::DuplicateStateUpdate)
        },
        L1Event::Reorg(tail) => Ok(l1_reorged(v, tail)),
        L1Event::QueryUpdate(_) => Ok(v),
        L1Event::Closed => Ok(v),
    }
}

/// What the driver owes after the event `e` of the L1 producer that found
/// the store as `v`.
pub open spec fn l1_effect_owed(v: ChainView, e: L1Event) -> L1Effect {
    match e {
        L1Event::Update(_) => L1Effect::Updated,
        L1Event::Reorg(tail) => L1Effect::Reorged { new_head: tail.spec_parent() },
        L1Event::QueryUpdate(number) => L1Effect::UpdateReply(lookup(v.l1, number.0)),
        L1Event::Closed => L1Effect::Restart { head: top(v.l1) },
    }
}

/// Whether a log that answers a query for the log of a height speaks of that
/// height.
pub open spec fn reply_at_height(e: L1Event, effect: L1Effect) -> bool {
    e matches L1Event::QueryUpdate(number) ==> (effect matches L1Effect::UpdateReply(Some(log))
        ==> log.block_number == number)
}

/// Whether the driver can take the event: a block that comes with an update
/// has its height, hash and state root.
pub open spec fn l2_event_ok<T, R>(e: L2Event<T, R>) -> bool {
    e matches L2Event::Update(block, _) ==> block.complete()
}

/// What an event of the L2 producer comes to: the store and the status after
/// it, or the reason why the driver gives up.
pub open spec fn l2_event_result<T, R>(v: ChainView, status: SyncStatus, e: L2Event<T, R>) -> Result<
    (ChainView, SyncStatus),
    SyncError,
> {
    match e {
        L2Event::Update(block, new_root) => match l2_update_result(v, block, new_root) {
            Ok(after) => Ok((after, status_with_current(status, block.row().hash))),
            Err(e) => Err(e),
        },
        L2Event::Reorg(tail) => Ok((l2_reorged(v, tail), status)),
        L2Event::NewContract(def) => Ok(
            (ChainView { contracts: with_contract(v.contracts, def.hash, def.code()), ..v }, status),
        ),
        L2Event::QueryHash(_) => Ok((v, status)),
        L2Event::QueryContractExistance(_) => Ok((v, status)),
        L2Event::Closed => Ok((v, status)),
    }
}

/// Whether `effect` is what the driver owes after the event `e` of the L2
/// producer that found the store as `v`.
pub open spec fn l2_effect_owed<T, R>(v: ChainView, e: L2Event<T, R>, effect: L2Effect<T, R>) -> bool {
    match e {
        L2Event::Update(block, _) => effect matches L2Effect::Updated { transaction_data }
            && transaction_data@ == zip_spec(block.transactions@, block.transaction_receipts@),
        L2Event::Reorg(tail) => effect matches L2Effect::Reorged { new_head } && new_head
            == tail.spec_parent(),
        L2Event::NewContract(_) => effect is ContractInserted,
        L2Event::QueryHash(number) => effect matches L2Effect::HashReply(hash) && hash == (
        match lookup(v.l2, number.0) {
            Some(block) => Some(block.hash),
            None => None,
        }),
        L2Event::QueryContractExistance(hashes) => effect matches L2Effect::ExistenceReply {
            exists,
            queried,
            found,
        } && exists@ == existence(v.contracts, hashes@) && queried == hashes@.len() && found
            == count_true(exists@),
        L2Event::Closed => effect matches L2Effect::Restart { head } && head == l2_head(v),
    }
}

/// Whether the driver can take the event.
pub open spec fn event_ok<T, R>(e: Event<T, R>) -> bool {
    e matches Event::L2(l2) ==> l2_event_ok(l2)
}

/// What an event comes to: the store and the status after it, or the reason
/// why the driver gives up.
pub open spec fn event_result<T, R>(v: ChainView, status: SyncStatus, e: Event<T, R>) -> Result<
    (ChainView, SyncStatus),
    SyncError,
> {
    match e {
        Event::L1(l1) => match l1_event_result(v, l1) {
            Ok(after) => Ok((after, status)),
            Err(e) => Err(e),
        },
        Event::L2(l2) => l2_event_result(v, status, l2),
    }
}

/// Whether `effect` is what the driver owes after the event `e` that found
/// the store as `v`.
pub open spec fn effect_owed<T, R>(v: ChainView, e: Event<T, R>, effect: Effect<T, R>) -> bool {
    match e {
        Event::L1(l1) => effect matches Effect::L1(owed) && owed == l1_effect_owed(v, l1)
            && reply_at_height(l1, owed),
        Event::L2(l2) => effect matches Effect::L2(owed) && l2_effect_owed(v, l2, owed),
    }
}

/// Counts the `true` elements of `flags`.
pub fn count_found(flags: &Vec<bool>) -> (n: usize)
    ensures
        n == count_true(flags@),
{
    let mut n: usize = 0;
    let mut i: usize = 0;
    while i < flags.len()
        invariant
            i <= flags.len(),
            n <= i,
            n == count_true(flags@.take(i as int)),
        decreases flags.len() - i,
    {
        assert(flags@.take(i + 1).drop_last() =~= flags@.take(i as int));
        if flags[i] {
            n = n + 1;
        }
        i = i + 1;
    }
    assert(flags@.take(i as int) =~= flags@);
    n
}

/// What the producers and the status publisher start from: the highest L1
/// log, height and hash of the highest L2 block, and the hash that the
/// status counts from, which is zero where there is no block.
#[derive(Clone, Copy, Debug, PartialEq, Eq)]
pub struct Startup {
    pub l1_head: Option<StateUpdateLog>,
    pub l2_head: Option<(BlockNumber, BlockHash)>,
    pub starting_block: BlockHash,
}

/// Reads from the store what the producers and the status publisher start
/// from.
pub fn startup(store: &ChainStore) -> (s: Startup)
    requires
        store.wf(),
    ensures
        s.l1_head == top(store@.l1),
        s.l2_head == l2_head(store@),
        s.starting_block == (match l2_head(store@) {
            Some((_, hash)) => hash,
            None => BlockHash(StarkHash::spec_zero()),
        }),
{
    let l1_head = store.latest_l1_log();
    let l2_head = match store.latest_block() {
        Some(block) => Some((block.number, block.hash)),
        None => None,
    };
    let starting_block = match l2_head {
        Some((_, hash)) => hash,
        None => BlockHash(StarkHash::zero()),
    };
    Startup { l1_head, l2_head, starting_block }
}

/// Takes one event of the L1 producer.
pub fn handle_l1_event(store: &mut ChainStore, event: L1Event) -> (r: Result<L1Effect, SyncError>)
    requires
        old(store).wf(),
    ensures
        final(store).wf(),
        match l1_event_result(old(store)@, event) {
            Ok(v) => final(store)@ == v && r == Ok::<L1Effect, SyncError>(
                l1_effect_owed(old(store)@, event),
            ),
            Err(e) => final(store)@ == old(store)@ && r == Err::<L1Effect, SyncError>(e),
        },
        r matches Ok(effect) ==> reply_at_height(event, effect),
{
    match event {
        L1Event::Update(updates) => {
            match l1_update(store, &updates) {
                Ok(()) => Ok(L1Effect::Updated),
                Err(e) => Err(e),
            }
        },
        L1Event::Reorg(tail) => {
            l1_reorg(store, tail);
            Ok(L1Effect::Reorged { new_head: tail.parent() })
        },
        L1Event::QueryUpdate(number) => Ok(L1Effect::UpdateReply(store.l1_log(number))),
        L1Event::Closed => Ok(L1Effect::Restart { head: store.latest_l1_log() }),
    }
}

/// Takes one event of the L2 producer.
pub fn handle_l2_event<T, R>(store: &mut ChainStore, state: &mut State, event: L2Event<T, R>) -> (r:
    Result<L2Effect<T, R>, SyncError>)
    requires
        old(store).wf(),
        l2_event_ok(event),
    ensures
        final(store).wf(),
        match l2_event_result(old(store)@, old(state).status, event) {
            Ok((v, status)) => final(store)@ == v && final(state).status == status && r is Ok
                && l2_effect_owed(old(store)@, event, r->Ok_0),
            Err(e) => final(store)@ == old(store)@ && final(state).status == old(state).status
                && r == Err::<L2Effect<T, R>, SyncError>(e),
        },
{
    match event {
        L2Event::Update(block, new_root) => {
            let block_hash = block.block_hash.unwrap();
            match l2_update(store, block, new_root) {
                Ok(transaction_data) => {
                    state.set_current_block(block_hash);
                    Ok(L2Effect::Updated { transaction_data })
                },
                Err(e) => Err(e),
            }
        },
        L2Event::Reorg(tail) => {
            l2_reorg(store, tail);
            Ok(L2Effect::Reorged { new_head: tail.parent() })
        },
        L2Event::NewContract(def) => {
            store.insert_contract(def);
            Ok(L2Effect::ContractInserted)
        },
        L2Event::QueryHash(number) => Ok(L2Effect::HashReply(store.block_hash(number))),
        L2Event::QueryContractExistance(hashes) => {
            let exists = store.contracts_exist(&hashes);
            let found = count_found(&exists);
            Ok(L2Effect::ExistenceReply { exists, queried: hashes.len(), found })
        },
        L2Event::Closed => {
            let head = match store.latest_block() {
                Some(block) => Some((block.number, block.hash)),
                None => None,
            };
            Ok(L2Effect::Restart { head })
        },
    }
}

/// How far a run of the driver over a sequence of events got.
pub struct Run {
    /// The store after the last event that was taken.
    pub view: ChainView,
    /// The status after the last event that was taken.
    pub status: SyncStatus,
    /// Why the driver gave up, if it did.
    pub error: Option<SyncError>,
}

/// The run of the driver over the first `n` events of `events`, from the
/// store `v` and the status `status`. The driver takes the events in order
/// and stops at the first that it gives up on.
pub open spec fn run<T, R>(v: ChainView, status: SyncStatus, events: Seq<Event<T, R>>, n: int) -> Run
    decreases n,
{
    if n <= 0 {
        Run { view: v, status: status, error: None }
    } else {
        let before = run(v, status, events, n - 1);
        if before.error is Some {
            before
        } else {
            match event_result(before.view, before.status, events[n - 1]) {
                Ok((view, status)) => Run { view: view, status: status, error: None },
                Err(e) => Run { error: Some(e), ..before },
            }
        }
    }
}

/// A run that gave up stays where it is.
pub proof fn lemma_run_gave_up<T, R>(
    v: ChainView,
    status: SyncStatus,
    events: Seq<Event<T, R>>,
    k: int,
    n: int,
)
    requires
        0 <= k <= n,
        run(v, status, events, k).error is Some,
    ensures
        run(v, status, events, n) == run(v, status, events, k),
    decreases n - k,
{
    if k < n {
        lemma_run_gave_up(v, status, events, k, n - 1);
    }
}

/// The elements of `v` in the opposite order.
fn reversed<E>(v: Vec<E>) -> (r: Vec<E>)
    ensures
        r@ == v@.reverse(),
{
    let mut v = v;
    let ghost v0 = v@;
    let mut r: Vec<E> = Vec::new();
    while v.len() > 0
        invariant
            v@ == v0.take(v@.len() as int),
            r@.len() + v@.len() == v0.len(),
            forall|k: int| 0 <= k < r@.len() ==> #[trigger] r@[k] == v0[v0.len() - 1 - k],
        decreases v@.len(),
    {
        let x = v.pop().unwrap();
        r.push(x);
    }
    assert(r@ =~= v0.reverse());
    r
}

/// Runs the driver over `events`, in order: each event is taken to its end
/// before the next, and the first that the driver gives up on ends the run
/// with what the events before it did to the store.
///
/// Returns what is owed after each event.
pub fn sync<T, R>(storage: &mut ChainStore, state: &mut State, events: Vec<Event<T, R>>) -> (r:
    Result<Vec<Effect<T, R>>, SyncError>)
    requires
        old(storage).wf(),
        forall|i: int| 0 <= i < events@.len() ==> event_ok(#[trigger] events@[i]),
    ensures
        final(storage).wf(),
        final(storage)@ == run(old(storage)@, old(state).status, events@, events@.len() as int).view,
        final(state).status == run(
            old(storage)@,
            old(state).status,
            events@,
            events@.len() as int,
        ).status,
        match run(old(storage)@, old(state).status, events@, events@.len() as int).error {
            Some(e) => r == Err::<Vec<Effect<T, R>>, SyncError>(e),
            None => r is Ok && r->Ok_0@.len() == events@.len() && forall|i: int|
                0 <= i < events@.len() ==> effect_owed(
                    run(old(storage)@, old(state).status, events@, i).view,
                    events@[i],
                    #[trigger] r->Ok_0@[i],
                ),
        },
{
    let ghost v0 = storage@;
    let ghost status0 = state.status;
    let ghost evs = events@;
    let ghost n = events@.len() as int;
    let mut pending = reversed(events);
    let mut effects: Vec<Effect<T, R>> = Vec::new();
    while pending.len() > 0
        invariant
            storage.wf(),
            v0 == old(storage)@,
            status0 == old(state).status,
            evs == events@,
            n == evs.len(),
            pending@.len() <= n,
            pending@ == evs.reverse().take(pending@.len() as int),
            effects@.len() + pending@.len() == n,
            forall|i: int| 0 <= i < evs.len() ==> event_ok(#[trigger] evs[i]),
            run(v0, status0, evs, effects@.len() as int).error is None,
            storage@ == run(v0, status0, evs, effects@.len() as int).view,
            state.status == run(v0, status0, evs, effects@.len() as int).status,
            forall|i: int|
                0 <= i < effects@.len() ==> effect_owed(
                    run(v0, status0, evs, i).view,
                    evs[i],
                    #[trigger] effects@[i],
                ),
        decreases pending@.len(),
    {
        let ghost done = effects@.len() as int;
        let ghost at = pending@.len() - 1;
        assert(pending@[at] == evs.reverse()[at]);
        assert(evs.reverse()[at] == evs[done]);
        let event = pending.pop().unwrap();
        assert(event == evs[done]);
        assert(event_ok(evs[done]));
        let outcome = match event {
            Event::L1(l1) => match handle_l1_event(storage, l1) {
                Ok(owed) => Ok(Effect::L1(owed)),
                Err(e) => Err(e),
            },
            Event::L2(l2) => match handle_l2_event(storage, state, l2) {
                Ok(owed) => Ok(Effect::L2(owed)),
                Err(e) => Err(e),
            },
        };
        match outcome {
            Ok(effect) => {
                effects.push(effect);
            },
            Err(e) => {
                proof {
                    lemma_run_gave_up(v0, status0, evs, done + 1, n);
                }
                return Err(e);
            },
        }
    }
    Ok(effects)
}

} // verus!
