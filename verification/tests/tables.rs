use chain_sync::chain::{BlockHash, ClassHash, GlobalRoot, StarknetBlock};
use chain_sync::contracts::{ContractCodeTable, ContractDefinition};
use chain_sync::primitives::{BlockNumber, StarkHash};
use chain_sync::reconcile::{is_expected_next, retract};
use chain_sync::sync::{count_found, update_sync_status_latest, zip_pairs, State, Status, SyncStatus};
use chain_sync::table::HeightTable;

fn felt(n: u64) -> StarkHash {
    StarkHash { w3: 0, w2: 0, w1: 0, w0: n }
}

fn row(number: u64) -> StarknetBlock {
    StarknetBlock {
        number: BlockNumber(number),
        hash: BlockHash(felt(number + 100)),
        root: GlobalRoot(felt(number + 200)),
        timestamp: number,
    }
}

#[test]
fn block_number_steps() {
    assert_eq!(BlockNumber::genesis(), BlockNumber(0));
    assert_eq!(BlockNumber(0).parent(), None);
    assert_eq!(BlockNumber(5).parent(), Some(BlockNumber(4)));
    assert_eq!(BlockNumber(5).next(), Some(BlockNumber(6)));
    assert_eq!(BlockNumber(u64::MAX).next(), None);
    assert_eq!(BlockNumber(9).get(), 9);
    assert!(StarkHash::zero().is_zero());
    assert!(!felt(1).is_zero());
}

#[test]
fn height_table_keeps_order() {
    let mut t: HeightTable<StarknetBlock> = HeightTable::new();
    assert_eq!(t.latest(), None);
    for n in [5u64, 1, 9, 3, 7] {
        assert!(t.insert(row(n)));
    }
    assert!(!t.insert(StarknetBlock { timestamp: 99, ..row(3) }));
    assert_eq!(t.get(3), Some(row(3)));
    assert_eq!(t.get(4), None);
    assert!(t.contains(9));
    assert_eq!(t.latest(), Some(row(9)));
    t.remove_from(6);
    assert_eq!(t.latest(), Some(row(5)));
    assert_eq!(t.get(7), None);
    assert_eq!(t.get(1), Some(row(1)));
    t.remove(3);
    t.remove(4);
    assert_eq!(t.get(3), None);
    assert_eq!(t.get(5), Some(row(5)));
    t.remove_from(0);
    assert_eq!(t.latest(), None);
}

#[test]
fn insert_all_is_all_or_nothing() {
    let mut t: HeightTable<StarknetBlock> = HeightTable::new();
    assert!(t.insert(row(4)));
    assert!(!t.insert_all(&vec![row(1), row(2), row(4), row(6)]));
    assert_eq!(t.get(1), None);
    assert_eq!(t.get(2), None);
    assert_eq!(t.get(6), None);
    assert_eq!(t.get(4), Some(row(4)));
    assert!(!t.insert_all(&vec![row(1), row(2), row(1)]));
    assert_eq!(t.get(1), None);
    assert!(t.insert_all(&vec![row(9), row(2), row(6)]));
    assert_eq!(t.latest(), Some(row(9)));
    assert_eq!(t.get(2), Some(row(2)));
    assert!(t.insert_all(&vec![]));
}

#[test]
fn contract_table_keeps_first_definition() {
    let mut t = ContractCodeTable::new();
    let hash = ClassHash(felt(1));
    t.insert_compressed(ContractDefinition { hash, bytecode: vec![1], abi: vec![2] });
    t.insert_compressed(ContractDefinition { hash, bytecode: vec![3], abi: vec![4] });
    assert!(t.contains(hash));
    assert_eq!(t.which_exist(&vec![hash, ClassHash(felt(2))]), vec![true, false]);
    assert_eq!(t.which_exist(&vec![]), Vec::<bool>::new());
}

#[test]
fn expected_next_and_retraction() {
    assert!(is_expected_next(None, BlockNumber(0)));
    assert!(!is_expected_next(None, BlockNumber(1)));
    assert!(is_expected_next(Some(BlockNumber(4)), BlockNumber(5)));
    assert!(!is_expected_next(Some(BlockNumber(4)), BlockNumber(4)));
    assert!(!is_expected_next(Some(BlockNumber(u64::MAX)), BlockNumber(0)));

    assert_eq!(retract(None, BlockNumber(3)), None);
    assert_eq!(retract(Some(BlockNumber(2)), BlockNumber(3)), Some(BlockNumber(2)));
    assert_eq!(retract(Some(BlockNumber(3)), BlockNumber(3)), Some(BlockNumber(2)));
    assert_eq!(retract(Some(BlockNumber(8)), BlockNumber(3)), Some(BlockNumber(2)));
    assert_eq!(retract(Some(BlockNumber(8)), BlockNumber(0)), None);
    assert_eq!(retract(Some(BlockNumber(0)), BlockNumber(0)), None);
}

#[test]
fn pairs_and_counts() {
    assert_eq!(zip_pairs(vec![1, 2, 3], vec!['a', 'b', 'c']), vec![(1, 'a'), (2, 'b'), (3, 'c')]);
    assert_eq!(zip_pairs(Vec::<u8>::new(), Vec::<u8>::new()), vec![]);
    assert_eq!(count_found(&vec![true, false, true, true]), 3);
    assert_eq!(count_found(&vec![]), 0);
}

#[test]
fn sync_status_publisher() {
    let mut state = State::default();
    let start = BlockHash(felt(1));
    assert!(update_sync_status_latest(&mut state, start, BlockHash(felt(5))));
    assert_eq!(
        state.status,
        SyncStatus::Status(Status {
            starting_block: start,
            current_block: start,
            highest_block: BlockHash(felt(5)),
        })
    );
    // unchanged latest: nothing to do
    assert!(!update_sync_status_latest(&mut state, BlockHash(felt(2)), BlockHash(felt(5))));
    // a new latest moves the highest block only
    assert!(update_sync_status_latest(&mut state, BlockHash(felt(2)), BlockHash(felt(6))));
    assert_eq!(
        state.status,
        SyncStatus::Status(Status {
            starting_block: start,
            current_block: start,
            highest_block: BlockHash(felt(6)),
        })
    );
    let mut off = State { status: SyncStatus::False(true) };
    assert!(update_sync_status_latest(&mut off, start, start));
}
