//! What holds of the store whatever the producers send.

use crate::chain::{agrees_at, ClassHash, GlobalRoot, StarknetBlock, StateUpdateLog};
use crate::contracts::{with_contract, ContractCode, ContractDefinition};
use crate::primitives::BlockNumber;
use crate::reconcile::{agreeing_run, lemma_agreeing_run};
use crate::store::ChainView;
use crate::sync::{
    event_result, l1_reorged, l1_updated, l2_reorged, l2_update_result, l2_updated, run, Block,
    Event, L1Event, L2Event, SyncError, SyncStatus,
};
use crate::table::{fresh, has_height, is_top, lemma_with_rows_at, top};
use vstd::prelude::*;

verus! {

/// Whether both sides hold the height `h` and L2's block there has the root
/// that L1 announced.
pub open spec fn agreed_at(v: ChainView, h: u64) -> bool {
    &&& v.l1.dom().contains(h)
    &&& v.l2.dom().contains(h)
    &&& v.l2[h].root == v.l1[h].global_root
}

/// Whether L1 and L2 agree at every height from genesis up to the agreed
/// height of `v`.
pub open spec fn agreed_through(v: ChainView) -> bool {
    v.head matches Some(n) ==> forall|h: u64| h <= n.0 ==> agreed_at(v, h)
}

/// Whether each log of `updates` speaks of the height above that of the log
/// before it.
pub open spec fn contiguous(updates: Seq<StateUpdateLog>) -> bool {
    forall|i: int|
        0 <= i < updates.len() - 1 ==> (#[trigger] updates[i + 1]).block_number.0
            == updates[i].block_number.0 + 1
}

/// In logs without a gap the `i`-th speaks of the height `i` above the first.
pub proof fn lemma_contiguous_height(updates: Seq<StateUpdateLog>, i: int)
    requires
        contiguous(updates),
        0 <= i < updates.len(),
    ensures
        updates[i].block_number.0 == updates[0].block_number.0 + i,
    decreases i,
{
    if i > 0 {
        lemma_contiguous_height(updates, i - 1);
        assert(updates[(i - 1) + 1].block_number.0 == updates[i - 1].block_number.0 + 1);
    }
}

/// Logs from L1 that come without a gap leave L1 and L2 in agreement up to
/// the agreed height, wherever they move it.
pub proof fn lemma_l1_update_keeps_agreement(v: ChainView, updates: Seq<StateUpdateLog>)
    requires
        agreed_through(v),
        fresh(v.l1, updates),
        contiguous(updates),
    ensures
        agreed_through(l1_updated(v, updates)),
{
    let after = l1_updated(v, updates);
    let k = agreeing_run(updates, v.l2, 0);
    lemma_agreeing_run(updates, v.l2, 0);
    if after.head is Some {
        let n = after.head->0;
        assert forall|h: u64| h <= n.0 implies agreed_at(after, h) by {
            if v.head is Some && h <= (v.head->0).0 {
                assert(agreed_at(v, h));
                if has_height(updates, h) {
                    let i = choose|i: int|
                        0 <= i < updates.len() && (#[trigger] updates[i]).block_number.0 == h;
                    assert(!v.l1.dom().contains(updates[i].block_number.0));
                }
            } else {
                assert(after.head != v.head);
                let first = updates[0].block_number.0;
                lemma_contiguous_height(updates, k - 1);
                let i = h - first;
                lemma_contiguous_height(updates, i);
                lemma_with_rows_at(v.l1, updates, i);
                assert(agrees_at(updates[i], v.l2));
            }
        }
    }
}

/// A block from L2 that is taken in leaves L1 and L2 in agreement up to the
/// agreed height, wherever it moves it.
pub proof fn lemma_l2_update_keeps_agreement(v: ChainView, row: StarknetBlock)
    requires
        agreed_through(v),
        !v.l2.dom().contains(row.number.0),
    ensures
        agreed_through(l2_updated(v, row)),
{
    let after = l2_updated(v, row);
    if after.head is Some {
        let n = after.head->0;
        assert forall|h: u64| h <= n.0 implies agreed_at(after, h) by {
            if v.head is Some && h <= (v.head->0).0 {
                assert(agreed_at(v, h));
            }
        }
    }
}

/// A reorganisation of L1 leaves L1 and L2 in agreement up to the agreed
/// height that it leaves.
pub proof fn lemma_l1_reorg_keeps_agreement(v: ChainView, tail: BlockNumber)
    requires
        agreed_through(v),
    ensures
        agreed_through(l1_reorged(v, tail)),
{
    let after = l1_reorged(v, tail);
    if after.head is Some {
        let n = after.head->0;
        assert forall|h: u64| h <= n.0 implies agreed_at(after, h) by {
            assert(agreed_at(v, h));
        }
    }
}

/// A reorganisation of L2 leaves L1 and L2 in agreement up to the agreed
/// height that it leaves.
pub proof fn lemma_l2_reorg_keeps_agreement(v: ChainView, tail: BlockNumber)
    requires
        agreed_through(v),
    ensures
        agreed_through(l2_reorged(v, tail)),
{
    let after = l2_reorged(v, tail);
    if after.head is Some {
        let n = after.head->0;
        assert forall|h: u64| h <= n.0 implies agreed_at(after, h) by {
            assert(agreed_at(v, h));
        }
    }
}

/// Whether the logs of an L1 update, if `e` is one, come without a gap.
pub open spec fn update_contiguous<T, R>(e: Event<T, R>) -> bool {
    e matches Event::L1(L1Event::Update(updates)) ==> contiguous(updates@)
}

/// An event that the driver takes leaves L1 and L2 in agreement up to the
/// agreed height, provided that the logs of an L1 update come without a gap.
pub proof fn lemma_event_keeps_agreement<T, R>(v: ChainView, status: SyncStatus, e: Event<T, R>)
    requires
        agreed_through(v),
        update_contiguous(e),
        event_result(v, status, e) is Ok,
    ensures
        agreed_through((event_result(v, status, e)->Ok_0).0),
{
    match e {
        Event::L1(L1Event::Update(updates)) => {
            lemma_l1_update_keeps_agreement(v, updates@);
        },
        Event::L1(L1Event::Reorg(tail)) => {
            lemma_l1_reorg_keeps_agreement(v, tail);
        },
        Event::L2(L2Event::Update(block, new_root)) => {
            lemma_l2_update_keeps_agreement(v, block.row());
        },
        Event::L2(L2Event::Reorg(tail)) => {
            lemma_l2_reorg_keeps_agreement(v, tail);
        },
        Event::L2(L2Event::NewContract(def)) => {
            let after = (event_result(v, status, e)->Ok_0).0;
            if after.head is Some {
                assert forall|h: u64| h <= (after.head->0).0 implies agreed_at(after, h) by {
                    assert(agreed_at(v, h));
                }
            }
        },
        _ => {},
    }
}

/// Through a whole run of the driver, as far as it gets, L1 and L2 agree at
/// every height from genesis up to the agreed height, provided that they did
/// at the start and that the logs of each L1 update come without a gap.
pub proof fn lemma_run_keeps_agreement<T, R>(
    v: ChainView,
    status: SyncStatus,
    events: Seq<Event<T, R>>,
    n: int,
)
    requires
        agreed_through(v),
        0 <= n <= events.len(),
        forall|i: int| 0 <= i < events.len() ==> update_contiguous(#[trigger] events[i]),
    ensures
        agreed_through(run(v, status, events, n).view),
    decreases n,
{
    if n > 0 {
        lemma_run_keeps_agreement(v, status, events, n - 1);
        let before = run(v, status, events, n - 1);
        if before.error is None {
            assert(update_contiguous(events[n - 1]));
            if event_result(before.view, before.status, events[n - 1]) is Ok {
                lemma_event_keeps_agreement(before.view, before.status, events[n - 1]);
            }
        }
    }
}

/// After a reorganisation of either side from the height `tail` on, the
/// agreed height is below `tail`, and there is none where `tail` is genesis.
pub proof fn lemma_reorg_head_below_tail(v: ChainView, tail: BlockNumber)
    ensures
        l1_reorged(v, tail).head matches Some(h) ==> h.0 < tail.0,
        l2_reorged(v, tail).head matches Some(h) ==> h.0 < tail.0,
        tail.0 == 0 ==> l1_reorged(v, tail).head is None && l2_reorged(v, tail).head is None,
        l1_reorged(v, tail).head == l2_reorged(v, tail).head,
{
}

/// A block that is taken in is stored with the root that the state tree came
/// to for it; and where the block is higher than every block before it, that
/// root is the one that the next block starts from.
pub proof fn lemma_l2_update_root_round_trip<T, R>(
    v: ChainView,
    block: Block<T, R>,
    new_root: GlobalRoot,
)
    requires
        l2_update_result(v, block, new_root) is Ok,
    ensures
        l2_update_result(v, block, new_root)->Ok_0.l2[block.row().number.0].root == new_root,
        (forall|h: u64| v.l2.dom().contains(h) ==> h < block.row().number.0) ==> l2_update_result(
            v,
            block,
            new_root,
        )->Ok_0.latest_root() == new_root,
{
    let after = l2_update_result(v, block, new_root)->Ok_0;
    let number = block.row().number.0;
    if forall|h: u64| v.l2.dom().contains(h) ==> h < number {
        assert(is_top(after.l2, number));
        let t = choose|h: u64| is_top(after.l2, h);
        assert(t == number);
        assert(top(after.l2) == Some(block.row()));
    }
}

/// Handing a contract definition in a second time changes nothing.
pub proof fn lemma_new_contract_idempotent(
    m: Map<ClassHash, ContractCode>,
    h: ClassHash,
    code: ContractCode,
)
    ensures
        with_contract(with_contract(m, h, code), h, code) == with_contract(m, h, code),
{
}

/// The driver never gives up on a contract definition, and taking the same
/// definition a second time leaves the store as the first time left it.
pub proof fn lemma_new_contract_event_idempotent<T, R>(
    v: ChainView,
    status: SyncStatus,
    def: ContractDefinition,
)
    ensures
        event_result(v, status, Event::<T, R>::L2(L2Event::NewContract(def))) is Ok,
        ({
            let once = event_result(v, status, Event::<T, R>::L2(L2Event::NewContract(def)))->Ok_0;
            event_result(once.0, once.1, Event::<T, R>::L2(L2Event::NewContract(def))) == Ok::<
                (ChainView, SyncStatus),
                SyncError,
            >(once)
        }),
{
}

} // verus!
