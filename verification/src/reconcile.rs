//! The height up to which L1 and L2 agree: how it advances when either side
//! brings something new, and how it falls back when either side reorganises.

use crate::chain::{agrees_at, StarknetBlock, StateUpdateLog};
use crate::primitives::{parent_of, BlockNumber};
use crate::store::ChainStore;
use vstd::prelude::*;

verus! {

/// The height that the next agreement must be about: genesis where there is
/// none yet, else the height above `head`. There is none above the largest
/// height that 64 bits hold.
pub open spec fn expected_next(head: Option<BlockNumber>) -> Option<u64> {
    match head {
        None => Some(0u64),
        Some(h) => if h.0 < u64::MAX {
            Some((h.0 + 1) as u64)
        } else {
            None
        },
    }
}

/// How many logs of `updates`, from the index `from` on and without a gap,
/// agree with the L2 block at their height.
pub open spec fn agreeing_run(
    updates: Seq<StateUpdateLog>,
    l2: Map<u64, StarknetBlock>,
    from: int,
) -> int
    decreases updates.len() - from,
{
    if 0 <= from < updates.len() && agrees_at(updates[from], l2) {
        1 + agreeing_run(updates, l2, from + 1)
    } else {
        0
    }
}

/// The agreed height after the logs `updates` came in from L1. It moves only
/// where the first log is about the expected height, and then to the height
/// of the last log of the leading run that agrees with L2.
pub open spec fn l1_forward_head(
    head: Option<BlockNumber>,
    updates: Seq<StateUpdateLog>,
    l2: Map<u64, StarknetBlock>,
) -> Option<BlockNumber> {
    if updates.len() > 0 && expected_next(head) == Some(updates[0].block_number.0)
        && agreeing_run(updates, l2, 0) > 0 {
        Some(updates[agreeing_run(updates, l2, 0) - 1].block_number)
    } else {
        head
    }
}

/// The agreed height after `block` came in from L2. It moves, by one, only
/// where the block has the expected height and L1 announced its root for
/// that height.
pub open spec fn l2_forward_head(
    head: Option<BlockNumber>,
    block: StarknetBlock,
    l1: Map<u64, StateUpdateLog>,
) -> Option<BlockNumber> {
    if expected_next(head) == Some(block.number.0) && l1.dom().contains(block.number.0)
        && l1[block.number.0].global_root == block.root {
        Some(block.number)
    } else {
        head
    }
}

/// The agreed height after a reorganisation from `tail` on: a height at or
/// above `tail` falls back to the one below `tail`, or to none at genesis.
pub open spec fn retract_head(head: Option<BlockNumber>, tail: BlockNumber) -> Option<BlockNumber> {
    match head {
        Some(h) => if h.0 >= tail.0 {
            parent_of(tail.0)
        } else {
            head
        },
        None => None,
    }
}

/// The leading run of agreeing logs has the length `k` exactly if the first
/// `k` logs agree and the one after them, if any, does not.
pub proof fn lemma_agreeing_run(
    updates: Seq<StateUpdateLog>,
    l2: Map<u64, StarknetBlock>,
    from: int,
)
    requires
        0 <= from <= updates.len(),
    ensures
        0 <= agreeing_run(updates, l2, from) <= updates.len() - from,
        forall|i: int|
            from <= i < from + agreeing_run(updates, l2, from) ==> agrees_at(
                #[trigger] updates[i],
                l2,
            ),
        from + agreeing_run(updates, l2, from) < updates.len() ==> !agrees_at(
            updates[from + agreeing_run(updates, l2, from)],
            l2,
        ),
    decreases updates.len() - from,
{
    if from < updates.len() && agrees_at(updates[from], l2) {
        lemma_agreeing_run(updates, l2, from + 1);
    }
}

/// Whether `number` is the height that the next agreement must be about.
pub fn is_expected_next(head: Option<BlockNumber>, number: BlockNumber) -> (b: bool)
    ensures
        b == (expected_next(head) == Some(number.0)),
{
    match head {
        None => number.0 == 0,
        Some(h) => h.0 < u64::MAX && number.0 == h.0 + 1,
    }
}

/// The agreed height after the logs `updates` came in from L1.
pub fn l1_forward(store: &ChainStore, updates: &Vec<StateUpdateLog>) -> (head: Option<BlockNumber>)
    requires
        store.wf(),
    ensures
        head == l1_forward_head(store@.head, updates@, store@.l2),
{
    let old_head = store.l1_l2_head();
    if updates.len() == 0 || !is_expected_next(old_head, updates[0].block_number) {
        return old_head;
    }
    let mut next_head = old_head;
    let mut i: usize = 0;
    while i < updates.len()
        invariant_except_break
            agreeing_run(updates@, store@.l2, 0) == i + agreeing_run(updates@, store@.l2, i as int),
        invariant
            store.wf(),
            old_head == store@.head,
            updates.len() > 0,
            expected_next(old_head) == Some(updates@[0].block_number.0),
            i <= updates.len(),
            next_head == (if i > 0 {
                Some(updates@[i - 1].block_number)
            } else {
                old_head
            }),
        ensures
            next_head == l1_forward_head(store@.head, updates@, store@.l2),
        decreases updates.len() - i,
    {
        let update = updates[i];
        let agrees = match store.block(update.block_number) {
            Some(block) => block.root == update.global_root,
            None => false,
        };
        if !agrees {
            assert(agreeing_run(updates@, store@.l2, i as int) == 0);
            break ;
        }
        next_head = Some(update.block_number);
        i = i + 1;
    }
    next_head
}

/// The agreed height after `block` came in from L2.
pub fn l2_forward(store: &ChainStore, block: &StarknetBlock) -> (head: Option<BlockNumber>)
    requires
        store.wf(),
    ensures
        head == l2_forward_head(store@.head, *block, store@.l1),
{
    let old_head = store.l1_l2_head();
    if is_expected_next(old_head, block.number) {
        let l1_root = match store.l1_log(block.number) {
            Some(log) => Some(log.global_root),
            None => None,
        };
        match l1_root {
            Some(root) => if root == block.root {
                return Some(block.number);
            },
            None => {},
        }
    }
    old_head
}

/// The agreed height after a reorganisation from `tail` on.
pub fn retract(head: Option<BlockNumber>, tail: BlockNumber) -> (new_head: Option<BlockNumber>)
    ensures
        new_head == retract_head(head, tail),
{
    match head {
        Some(h) => if h.0 >= tail.0 {
            tail.parent()
        } else {
            head
        },
        None => None,
    }
}

} // verus!
