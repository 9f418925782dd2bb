use chain_sync::chain::{
    BlockHash, BlockOrigin, ClassHash, EthOrigin, GlobalRoot, StarknetBlock, StateUpdateLog,
    TransactionOrigin, H256,
};
use chain_sync::contracts::ContractDefinition;
use chain_sync::primitives::{BlockNumber, StarkHash};
use chain_sync::store::ChainStore;
use chain_sync::sync::{
    handle_l2_event, startup, sync, Block, BlockStatus, Effect, Event, L1Effect, L1Event,
    L2Effect, L2Event, State, Status, SyncError, SyncStatus,
};

fn felt(n: u64) -> StarkHash {
    StarkHash { w3: 0, w2: 0, w1: 0, w0: n }
}

fn a() -> StarkHash {
    felt(0xA)
}

fn b() -> StarkHash {
    felt(0xB)
}

fn eth_orig() -> EthOrigin {
    let zero = H256 { w3: 0, w2: 0, w1: 0, w0: 0 };
    EthOrigin {
        block: BlockOrigin { hash: zero, number: 0 },
        log_index: 0,
        transaction: TransactionOrigin { hash: zero, index: 0 },
    }
}

fn log(number: u64, root: StarkHash) -> StateUpdateLog {
    StateUpdateLog {
        block_number: BlockNumber(number),
        global_root: GlobalRoot(root),
        origin: eth_orig(),
    }
}

fn state_update_log0() -> StateUpdateLog {
    log(0, a())
}

fn state_update_log1() -> StateUpdateLog {
    log(1, b())
}

fn block(number: u64, hash: StarkHash, root: StarkHash) -> Block<u32, u32> {
    Block {
        block_hash: Some(BlockHash(hash)),
        block_number: Some(BlockNumber(number)),
        parent_block_hash: BlockHash(StarkHash::zero()),
        state_root: Some(GlobalRoot(root)),
        status: BlockStatus::AcceptedOnL1,
        timestamp: number,
        transaction_receipts: vec![],
        transactions: vec![],
    }
}

fn block0() -> Block<u32, u32> {
    block(0, a(), a())
}

fn block1() -> Block<u32, u32> {
    let mut b1 = block(1, b(), b());
    b1.parent_block_hash = BlockHash(a());
    b1.status = BlockStatus::AcceptedOnL2;
    b1
}

fn row(number: u64, hash: StarkHash, root: StarkHash) -> StarknetBlock {
    StarknetBlock {
        number: BlockNumber(number),
        hash: BlockHash(hash),
        root: GlobalRoot(root),
        timestamp: number,
    }
}

fn run_events(
    store: &mut ChainStore,
    events: Vec<Event<u32, u32>>,
) -> Result<Vec<Effect<u32, u32>>, SyncError> {
    let mut state = State::default();
    sync(store, &mut state, events)
}

#[test]
fn l1_update() {
    let results: Vec<Option<BlockNumber>> = [
        // no L2 head
        None,
        // some L2 head
        Some(StarknetBlock {
            number: BlockNumber(0),
            hash: BlockHash(StarkHash::zero()),
            root: GlobalRoot(StarkHash::zero()),
            timestamp: 0,
        }),
    ]
    .into_iter()
    .map(|block| {
        let mut store = ChainStore::new();
        if let Some(some_block) = block {
            assert!(store.insert_block(some_block));
        }
        run_events(&mut store, vec![Event::L1(L1Event::Update(vec![state_update_log0()]))])
            .unwrap();
        store.l1_l2_head()
    })
    .collect();

    // the root of the log is not the root of the block: no agreement
    assert_eq!(results, vec![None, None]);
}

#[test]
fn l1_update_root_same_as_l2() {
    let mut store = ChainStore::new();
    assert!(store.insert_block(row(0, StarkHash::zero(), a())));
    run_events(&mut store, vec![Event::L1(L1Event::Update(vec![state_update_log0()]))]).unwrap();
    assert_eq!(store.l1_l2_head(), Some(BlockNumber(0)));
}

#[test]
fn l1_update_root_differs_from_l2() {
    let mut store = ChainStore::new();
    assert!(store.insert_block(row(0, StarkHash::zero(), StarkHash::zero())));
    run_events(&mut store, vec![Event::L1(L1Event::Update(vec![state_update_log0()]))]).unwrap();
    assert_eq!(store.l1_l2_head(), None);
    assert_eq!(store.l1_log(BlockNumber(0)), Some(state_update_log0()));
}

#[test]
fn l1_reorg() {
    let results: Vec<(Option<BlockNumber>, Option<BlockNumber>)> = [
        // single block in L1, reorg on genesis
        (vec![state_update_log0()], 0),
        // 2 blocks in L1, reorg on block #1
        (vec![state_update_log0(), state_update_log1()], 1),
    ]
    .into_iter()
    .map(|(updates, reorg_on_block)| {
        let mut store = ChainStore::new();
        store.set_l1_l2_head(Some(BlockNumber(reorg_on_block)));
        for update in updates {
            assert!(store.insert_l1_log(update));
        }
        run_events(&mut store, vec![Event::L1(L1Event::Reorg(BlockNumber(reorg_on_block)))])
            .unwrap();
        let latest_block_number = store.latest_l1_log().map(|s| s.block_number);
        (store.l1_l2_head(), latest_block_number)
    })
    .collect();

    assert_eq!(
        results,
        vec![
            // no L1-L2 head expected, as we start from genesis
            (None, None),
            // some L1-L2 head expected, block #1 removed
            (Some(BlockNumber(0)), Some(BlockNumber(0))),
        ]
    );
}

#[test]
fn l2_update() {
    let results: Vec<Option<BlockNumber>> = [
        // no L1 head
        None,
        // some L1 head
        Some(state_update_log0()),
    ]
    .into_iter()
    .map(|update_log| {
        let mut store = ChainStore::new();
        if let Some(some_update_log) = update_log {
            assert!(store.insert_l1_log(some_update_log));
        }
        run_events(&mut store, vec![Event::L2(L2Event::Update(block0(), GlobalRoot(a())))])
            .unwrap();
        store.l1_l2_head()
    })
    .collect();

    assert_eq!(results, vec![None, Some(BlockNumber(0))]);
}

#[test]
fn l1_before_l2_agreement() {
    let mut store = ChainStore::new();
    run_events(&mut store, vec![Event::L1(L1Event::Update(vec![log(0, a())]))]).unwrap();
    assert_eq!(store.l1_l2_head(), None);
    run_events(&mut store, vec![Event::L2(L2Event::Update(block(0, a(), a()), GlobalRoot(a())))])
        .unwrap();
    assert_eq!(store.l1_l2_head(), Some(BlockNumber(0)));
}

#[test]
fn l2_before_l1_agreement() {
    let mut store = ChainStore::new();
    run_events(&mut store, vec![Event::L2(L2Event::Update(block(0, a(), a()), GlobalRoot(a())))])
        .unwrap();
    assert_eq!(store.l1_l2_head(), None);
    run_events(&mut store, vec![Event::L1(L1Event::Update(vec![log(0, a())]))]).unwrap();
    assert_eq!(store.l1_l2_head(), Some(BlockNumber(0)));
}

#[test]
fn disagreement_leaves_head_absent() {
    let mut store = ChainStore::new();
    let effects = run_events(
        &mut store,
        vec![
            Event::L1(L1Event::Update(vec![log(0, a())])),
            Event::L2(L2Event::Update(block(0, a(), b()), GlobalRoot(b()))),
        ],
    )
    .unwrap();
    assert_eq!(effects.len(), 2);
    assert_eq!(store.l1_l2_head(), None);
    assert_eq!(store.block(BlockNumber(0)), Some(row(0, a(), b())));
}

fn agreed_through_one() -> ChainStore {
    let mut store = ChainStore::new();
    run_events(
        &mut store,
        vec![
            Event::L1(L1Event::Update(vec![state_update_log0(), state_update_log1()])),
            Event::L2(L2Event::Update(block0(), GlobalRoot(a()))),
            Event::L2(L2Event::Update(block1(), GlobalRoot(b()))),
        ],
    )
    .unwrap();
    assert_eq!(store.l1_l2_head(), Some(BlockNumber(1)));
    store
}

#[test]
fn l1_reorg_below_head() {
    let mut store = agreed_through_one();
    let effects =
        run_events(&mut store, vec![Event::L1(L1Event::Reorg(BlockNumber(1)))]).unwrap();
    assert!(matches!(
        effects[0],
        Effect::L1(L1Effect::Reorged { new_head: Some(BlockNumber(0)) })
    ));
    assert_eq!(store.l1_log(BlockNumber(1)), None);
    assert_eq!(store.latest_l1_log(), Some(state_update_log0()));
    assert_eq!(store.l1_l2_head(), Some(BlockNumber(0)));
    // L2 keeps its blocks
    assert_eq!(store.block(BlockNumber(1)), Some(row(1, b(), b())));
}

#[test]
fn l1_reorg_at_genesis() {
    let mut store = ChainStore::new();
    run_events(
        &mut store,
        vec![
            Event::L1(L1Event::Update(vec![state_update_log0()])),
            Event::L2(L2Event::Update(block0(), GlobalRoot(a()))),
        ],
    )
    .unwrap();
    assert_eq!(store.l1_l2_head(), Some(BlockNumber(0)));
    let effects =
        run_events(&mut store, vec![Event::L1(L1Event::Reorg(BlockNumber::genesis()))]).unwrap();
    assert!(matches!(effects[0], Effect::L1(L1Effect::Reorged { new_head: None })));
    assert_eq!(store.l1_l2_head(), None);
    assert_eq!(store.latest_l1_log(), None);
}

#[test]
fn l2_reorg_below_head() {
    let mut store = agreed_through_one();
    run_events(&mut store, vec![Event::L2(L2Event::Reorg(BlockNumber(1)))]).unwrap();
    assert_eq!(store.block(BlockNumber(1)), None);
    assert_eq!(store.latest_block(), Some(row(0, a(), a())));
    assert_eq!(store.l1_l2_head(), Some(BlockNumber(0)));
    assert_eq!(store.l1_log(BlockNumber(1)), Some(state_update_log1()));
}

#[test]
fn reorg_above_head_leaves_head() {
    let mut store = agreed_through_one();
    run_events(
        &mut store,
        vec![
            Event::L1(L1Event::Reorg(BlockNumber(2))),
            Event::L2(L2Event::Reorg(BlockNumber(5))),
        ],
    )
    .unwrap();
    assert_eq!(store.l1_l2_head(), Some(BlockNumber(1)));
}

#[test]
fn state_root_mismatch_is_fatal() {
    let mut store = ChainStore::new();
    run_events(&mut store, vec![Event::L1(L1Event::Update(vec![log(0, a())]))]).unwrap();
    let result = run_events(
        &mut store,
        vec![
            // the state tree came to B, the block claims A
            Event::L2(L2Event::Update(block(0, a(), a()), GlobalRoot(b()))),
            Event::L2(L2Event::Update(block(1, b(), b()), GlobalRoot(b()))),
        ],
    );
    assert_eq!(result.unwrap_err(), SyncError::StateRootMismatch);
    assert_eq!(store.block(BlockNumber(0)), None);
    assert_eq!(store.block(BlockNumber(1)), None);
    assert_eq!(store.latest_block(), None);
    assert_eq!(store.l1_l2_head(), None);
}

#[test]
fn events_before_a_fatal_one_stay() {
    let mut store = ChainStore::new();
    let result = run_events(
        &mut store,
        vec![
            Event::L2(L2Event::Update(block(0, a(), a()), GlobalRoot(a()))),
            Event::L2(L2Event::Update(block(1, b(), b()), GlobalRoot(a()))),
        ],
    );
    assert_eq!(result.unwrap_err(), SyncError::StateRootMismatch);
    assert_eq!(store.block(BlockNumber(0)), Some(row(0, a(), a())));
    assert_eq!(store.block(BlockNumber(1)), None);
}

#[test]
fn duplicate_block_is_turned_down() {
    let mut store = ChainStore::new();
    let result = run_events(
        &mut store,
        vec![
            Event::L2(L2Event::Update(block(0, a(), a()), GlobalRoot(a()))),
            Event::L2(L2Event::Update(block(0, b(), b()), GlobalRoot(b()))),
        ],
    );
    assert_eq!(result.unwrap_err(), SyncError::DuplicateBlock);
    assert_eq!(store.block(BlockNumber(0)), Some(row(0, a(), a())));
}

#[test]
fn duplicate_state_update_stores_nothing() {
    let mut store = ChainStore::new();
    assert!(store.insert_l1_log(log(2, a())));
    let result = run_events(
        &mut store,
        vec![Event::L1(L1Event::Update(vec![log(0, a()), log(1, b()), log(2, b())]))],
    );
    assert_eq!(result.unwrap_err(), SyncError::DuplicateStateUpdate);
    assert_eq!(store.l1_log(BlockNumber(0)), None);
    assert_eq!(store.l1_log(BlockNumber(1)), None);
    assert_eq!(store.l1_log(BlockNumber(2)), Some(log(2, a())));

    let twice = run_events(
        &mut store,
        vec![Event::L1(L1Event::Update(vec![log(5, a()), log(5, a())]))],
    );
    assert_eq!(twice.unwrap_err(), SyncError::DuplicateStateUpdate);
    assert_eq!(store.l1_log(BlockNumber(5)), None);
}

#[test]
fn transactions_and_receipts_are_paired() {
    let mut store = ChainStore::new();
    let mut state = State::default();
    let mut blk: Block<&str, u8> = Block {
        block_hash: Some(BlockHash(a())),
        block_number: Some(BlockNumber(0)),
        parent_block_hash: BlockHash(StarkHash::zero()),
        state_root: Some(GlobalRoot(a())),
        status: BlockStatus::AcceptedOnL2,
        timestamp: 7,
        transaction_receipts: vec![1, 2, 3],
        transactions: vec!["x", "y", "z"],
    };
    blk.timestamp = 9;
    let effect =
        handle_l2_event(&mut store, &mut state, L2Event::Update(blk, GlobalRoot(a()))).unwrap();
    match effect {
        L2Effect::Updated { transaction_data } => {
            assert_eq!(transaction_data, vec![("x", 1), ("y", 2), ("z", 3)]);
        }
        other => panic!("unexpected effect {:?}", other),
    }
    assert_eq!(store.block(BlockNumber(0)).unwrap().timestamp, 9);
}

#[test]
fn transactions_and_receipts_mismatch() {
    let mut store = ChainStore::new();
    let mut state = State::default();
    let blk: Block<&str, u8> = Block {
        block_hash: Some(BlockHash(a())),
        block_number: Some(BlockNumber(0)),
        parent_block_hash: BlockHash(StarkHash::zero()),
        state_root: Some(GlobalRoot(a())),
        status: BlockStatus::AcceptedOnL2,
        timestamp: 7,
        transaction_receipts: vec![1],
        transactions: vec!["x", "y"],
    };
    let result = handle_l2_event(&mut store, &mut state, L2Event::Update(blk, GlobalRoot(a())));
    assert_eq!(
        result.unwrap_err(),
        SyncError::TransactionsReceiptsMismatch { transactions: 2, receipts: 1 }
    );
    assert_eq!(store.latest_block(), None);
}

#[test]
fn l1_update_advances_over_leading_agreement_only() {
    let mut store = ChainStore::new();
    assert!(store.insert_block(row(0, a(), a())));
    assert!(store.insert_block(row(1, b(), b())));
    assert!(store.insert_block(row(2, felt(3), felt(9))));
    assert!(store.insert_block(row(3, felt(4), felt(4))));
    run_events(
        &mut store,
        vec![Event::L1(L1Event::Update(vec![
            log(0, a()),
            log(1, b()),
            log(2, felt(3)),
            log(3, felt(4)),
        ]))],
    )
    .unwrap();
    assert_eq!(store.l1_l2_head(), Some(BlockNumber(1)));
}

#[test]
fn l1_update_not_at_expected_height() {
    let mut store = ChainStore::new();
    assert!(store.insert_block(row(0, a(), a())));
    assert!(store.insert_block(row(1, b(), b())));
    run_events(&mut store, vec![Event::L1(L1Event::Update(vec![log(1, b())]))]).unwrap();
    assert_eq!(store.l1_l2_head(), None);
}

#[test]
fn l2_update_advances_by_one() {
    let mut store = ChainStore::new();
    run_events(
        &mut store,
        vec![
            Event::L1(L1Event::Update(vec![log(0, a()), log(1, b()), log(2, felt(3))])),
            Event::L2(L2Event::Update(block(0, a(), a()), GlobalRoot(a()))),
        ],
    )
    .unwrap();
    assert_eq!(store.l1_l2_head(), Some(BlockNumber(0)));
    run_events(&mut store, vec![Event::L2(L2Event::Update(block(2, felt(3), felt(3)), GlobalRoot(felt(3))))])
        .unwrap();
    assert_eq!(store.l1_l2_head(), Some(BlockNumber(0)));
    run_events(&mut store, vec![Event::L2(L2Event::Update(block(1, b(), b()), GlobalRoot(b())))])
        .unwrap();
    assert_eq!(store.l1_l2_head(), Some(BlockNumber(1)));
}

#[test]
fn queries_reply_from_the_store() {
    let mut store = agreed_through_one();
    let effects = run_events(
        &mut store,
        vec![
            Event::L1(L1Event::QueryUpdate(BlockNumber(1))),
            Event::L1(L1Event::QueryUpdate(BlockNumber(7))),
            Event::L2(L2Event::QueryHash(BlockNumber(1))),
            Event::L2(L2Event::QueryHash(BlockNumber(7))),
        ],
    )
    .unwrap();
    assert!(matches!(effects[0], Effect::L1(L1Effect::UpdateReply(Some(l))) if l == state_update_log1()));
    assert!(matches!(effects[1], Effect::L1(L1Effect::UpdateReply(None))));
    assert!(matches!(effects[2], Effect::L2(L2Effect::HashReply(Some(h))) if h == BlockHash(b())));
    assert!(matches!(effects[3], Effect::L2(L2Effect::HashReply(None))));
}

fn definition(hash: u64, bytecode: Vec<u8>) -> ContractDefinition {
    ContractDefinition { hash: ClassHash(felt(hash)), bytecode, abi: vec![0x7b, 0x7d] }
}

#[test]
fn new_contract_is_idempotent() {
    let mut store = ChainStore::new();
    let effects = run_events(
        &mut store,
        vec![
            Event::L2(L2Event::NewContract(definition(1, vec![1, 2, 3]))),
            Event::L2(L2Event::NewContract(definition(1, vec![1, 2, 3]))),
            Event::L2(L2Event::QueryContractExistance(vec![
                ClassHash(felt(2)),
                ClassHash(felt(1)),
                ClassHash(felt(1)),
            ])),
        ],
    )
    .unwrap();
    assert!(matches!(effects[0], Effect::L2(L2Effect::ContractInserted)));
    assert!(matches!(effects[1], Effect::L2(L2Effect::ContractInserted)));
    match &effects[2] {
        Effect::L2(L2Effect::ExistenceReply { exists, queried, found }) => {
            assert_eq!(exists, &vec![false, true, true]);
            assert_eq!(*queried, 3);
            assert_eq!(*found, 2);
        }
        other => panic!("unexpected effect {:?}", other),
    }
    assert_eq!(store.l1_l2_head(), None);
}

#[test]
fn producer_crash_and_restart() {
    let mut store = agreed_through_one();
    let effects = run_events(
        &mut store,
        vec![Event::L2(L2Event::Closed), Event::L1(L1Event::Closed)],
    )
    .unwrap();
    assert!(matches!(
        effects[0],
        Effect::L2(L2Effect::Restart { head: Some((BlockNumber(1), h)) }) if h == BlockHash(b())
    ));
    assert!(matches!(
        effects[1],
        Effect::L1(L1Effect::Restart { head: Some(l) }) if l == state_update_log1()
    ));

    let mut empty = ChainStore::new();
    let effects = run_events(
        &mut empty,
        vec![Event::L2(L2Event::Closed), Event::L1(L1Event::Closed)],
    )
    .unwrap();
    assert!(matches!(effects[0], Effect::L2(L2Effect::Restart { head: None })));
    assert!(matches!(effects[1], Effect::L1(L1Effect::Restart { head: None })));
}

#[test]
fn startup_reads_heads() {
    let empty = ChainStore::new();
    let s = startup(&empty);
    assert_eq!(s.l1_head, None);
    assert_eq!(s.l2_head, None);
    assert_eq!(s.starting_block, BlockHash(StarkHash::zero()));
    assert_eq!(empty.latest_root(), GlobalRoot(StarkHash::zero()));

    let store = agreed_through_one();
    let s = startup(&store);
    assert_eq!(s.l1_head, Some(state_update_log1()));
    assert_eq!(s.l2_head, Some((BlockNumber(1), BlockHash(b()))));
    assert_eq!(s.starting_block, BlockHash(b()));
    assert_eq!(store.latest_root(), GlobalRoot(b()));
}

#[test]
fn l2_update_sets_current_block() {
    let mut store = ChainStore::new();
    let mut state = State::default();
    assert_eq!(state.status, SyncStatus::False(false));
    sync(&mut store, &mut state, vec![Event::L2(L2Event::Update(block0(), GlobalRoot(a())))])
        .unwrap();
    assert_eq!(state.status, SyncStatus::False(false));

    state.status = SyncStatus::Status(Status {
        starting_block: BlockHash(felt(1)),
        current_block: BlockHash(felt(1)),
        highest_block: BlockHash(felt(9)),
    });
    sync(&mut store, &mut state, vec![Event::L2(L2Event::Update(block1(), GlobalRoot(b())))])
        .unwrap();
    assert_eq!(
        state.status,
        SyncStatus::Status(Status {
            starting_block: BlockHash(felt(1)),
            current_block: BlockHash(b()),
            highest_block: BlockHash(felt(9)),
        })
    );
}
