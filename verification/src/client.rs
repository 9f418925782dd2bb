//! The peer-agnostic client: who to ask, in which order, and for what.

use crate::capabilities::{now, PeersWithCapability, DEFAULT_TIMEOUT_NANOS};
use crate::chain::BlockHash;
use crate::peers::{distinct, ids, lemma_reordered, PeerId, PeerSet};
use crate::primitives::BlockNumber;
use crate::streams::{HeaderStream, TransactionStream};
use rand::seq::SliceRandom;
use std::time::Instant;
use vstd::prelude::*;

verus! {

/// Data received from a specific peer.
#[derive(Debug)]
pub struct PeerData<T> {
    pub peer: PeerId,
    pub data: T,
}

impl<T> PeerData<T> {
    /// `data` as received from `peer`.
    pub fn new(peer: PeerId, data: T) -> (d: Self)
        ensures
            d.peer == peer,
            d.data == data,
    {
        Self { peer, data }
    }
}

/// Height and hash of a block.
#[derive(Clone, Copy, Debug, PartialEq, Eq, Structural)]
pub struct BlockId {
    pub number: u64,
    pub hash: BlockHash,
}

/// The announcement of a new block.
#[derive(Clone, Copy, Debug, PartialEq, Eq, Structural)]
pub enum NewBlock {
    Id(BlockId),
}

/// A message and the gossip topic to publish it on.
#[derive(Debug)]
pub struct Publication {
    pub topic: String,
    pub message: NewBlock,
}

/// Puts `peers` into a random order, with `rand::seq::SliceRandom::shuffle`
/// and the generator of `rand::thread_rng`. The shuffle only swaps elements,
/// so the same peers come out, each as often as it went in; nothing is
/// claimed of their order. The generator gives up only where the operating
/// system has no randomness to seed it with.
#[verifier::external_body]
fn shuffle(peers: &mut Vec<PeerId>)
    ensures
        ids(final(peers)@).to_multiset() == ids(old(peers)@).to_multiset(),
{
    peers.shuffle(&mut rand::thread_rng());
}

/// The node's side of the peer-to-peer network: its own identity, the topic
/// on which it announces blocks, and the peers it knows for each capability.
#[derive(Debug)]
pub struct Client {
    peer_id: PeerId,
    block_propagation_topic: String,
    peers_with_capability: PeersWithCapability,
}

impl Client {
    /// Whether the known peers are in order.
    pub closed spec fn wf(&self) -> bool {
        self.peers_with_capability.wf()
    }

    /// The node's own identity.
    pub closed spec fn own_id(&self) -> Seq<u8> {
        self.peer_id@
    }

    /// The topic on which the node announces blocks.
    pub closed spec fn topic(&self) -> Seq<char> {
        self.block_propagation_topic@
    }

    /// The peers held for each capability, whatever the clock says.
    pub closed spec fn known(&self) -> Map<Seq<char>, Set<Seq<u8>>> {
        self.peers_with_capability@
    }

    /// The time, in nanoseconds, for which what is known of peers counts.
    pub closed spec fn timeout(&self) -> u128 {
        self.peers_with_capability.timeout()
    }

    /// The moment at which the known peers were last updated.
    pub closed spec fn last_update(&self) -> Instant {
        self.peers_with_capability.last_update()
    }

    /// The client of the node `peer_id`, which knows of no peers yet and
    /// counts what it learns of peers for a minute.
    pub fn new(peer_id: PeerId, block_propagation_topic: String) -> (c: Self)
        ensures
            c.wf(),
            c.own_id() == peer_id@,
            c.topic() == block_propagation_topic@,
            c.known() == Map::<Seq<char>, Set<Seq<u8>>>::empty(),
            c.timeout() == DEFAULT_TIMEOUT_NANOS,
    {
        Self { peer_id, block_propagation_topic, peers_with_capability: Default::default() }
    }

    /// What is to be published for a new L2 head: the identity of the block,
    /// on the node's topic.
    pub fn propagate_new_head(&self, block_id: BlockId) -> (p: Publication)
        ensures
            p.topic@ == self.topic(),
            p.message == NewBlock::Id(block_id),
    {
        Publication { topic: self.block_propagation_topic.clone(), message: NewBlock::Id(block_id) }
    }

    /// The peers known for `capability`, each once and in a random order,
    /// where `elapsed` nanoseconds have passed since the known peers were
    /// last updated: once that is more than the timeout, what is known no
    /// longer counts.
    ///
    /// `None` tells that the peers are to be discovered anew, and handed to
    /// [`Client::update_peers_with_sync_capability`].
    pub fn peers_with_sync_capability_at(&self, elapsed: u128, capability: &str) -> (peers: Option<
        Vec<PeerId>,
    >)
        requires
            self.wf(),
        ensures
            peers is Some <==> elapsed <= self.timeout() && self.known().dom().contains(
                capability@,
            ),
            peers matches Some(list) ==> distinct(ids(list@)) && ids(list@).to_set()
                == self.known()[capability@],
    {
        match self.peers_with_capability.get_at(elapsed, capability) {
            Some(set) => {
                let mut list = set.to_vec();
                let ghost before = ids(list@);
                shuffle(&mut list);
                proof {
                    lemma_reordered(before, ids(list@));
                }
                Some(list)
            },
            None => None,
        }
    }

    /// The peers known for `capability`, each once and in a random order, as
    /// long as what is known still counts.
    ///
    /// `None` tells that the peers are to be discovered anew, and handed to
    /// [`Client::update_peers_with_sync_capability`].
    pub fn peers_with_sync_capability(&self, capability: &str) -> (peers: Option<Vec<PeerId>>)
        requires
            self.wf(),
        ensures
            peers matches Some(list) ==> self.known().dom().contains(capability@) && distinct(
                ids(list@),
            ) && ids(list@).to_set() == self.known()[capability@],
            !self.known().dom().contains(capability@) ==> peers is None,
    {
        let elapsed = self.peers_with_capability.elapsed();
        self.peers_with_sync_capability_at(elapsed, capability)
    }

    /// Takes the peers that were `discovered` for `capability` at the
    /// moment `at`: all but the node itself are known for it from now on,
    /// and the clock starts anew at `at`.
    ///
    /// Returns them, each once and in a random order.
    pub fn update_peers_with_sync_capability_at(
        &mut self,
        at: Instant,
        capability: &str,
        discovered: PeerSet,
    ) -> (peers: Vec<PeerId>)
        requires
            old(self).wf(),
            discovered.wf(),
        ensures
            final(self).wf(),
            final(self).own_id() == old(self).own_id(),
            final(self).topic() == old(self).topic(),
            final(self).timeout() == old(self).timeout(),
            final(self).last_update() == at,
            final(self).known() == old(self).known().insert(
                capability@,
                discovered@.remove(old(self).own_id()),
            ),
            distinct(ids(peers@)),
            ids(peers@).to_set() == discovered@.remove(old(self).own_id()),
    {
        let mut others = discovered;
        others.remove(&self.peer_id);
        let mut list = others.to_vec();
        self.peers_with_capability.update_at(at, capability, others);
        let ghost before = ids(list@);
        shuffle(&mut list);
        proof {
            lemma_reordered(before, ids(list@));
        }
        list
    }

    /// Takes the peers that were `discovered` for `capability`: all but the
    /// node itself are known for it from now on, and the clock starts anew.
    ///
    /// Returns them, each once and in a random order.
    pub fn update_peers_with_sync_capability(&mut self, capability: &str, discovered: PeerSet) -> (peers:
        Vec<PeerId>)
        requires
            old(self).wf(),
            discovered.wf(),
        ensures
            final(self).wf(),
            final(self).own_id() == old(self).own_id(),
            final(self).topic() == old(self).topic(),
            final(self).timeout() == old(self).timeout(),
            final(self).known() == old(self).known().insert(
                capability@,
                discovered@.remove(old(self).own_id()),
            ),
            distinct(ids(peers@)),
            ids(peers@).to_set() == discovered@.remove(old(self).own_id()),
    {
        self.update_peers_with_sync_capability_at(now(), capability, discovered)
    }

    /// A stream of the headers from `start` to `stop`, or from `stop` to
    /// `start` where `reverse` is set. It begins without peers.
    pub fn header_stream(&self, start: BlockNumber, stop: BlockNumber, reverse: bool) -> (s:
        HeaderStream)
        ensures
            s.wf(),
            s@ == HeaderStream::initial(start, stop, reverse),
    {
        HeaderStream::new(start, stop, reverse)
    }

    /// A stream of the transactions of the block at the height `block`. It
    /// begins without peers.
    pub fn transaction_stream<X>(&self, block: BlockNumber) -> (s: TransactionStream<X>)
        ensures
            s.wf(),
            s@ == TransactionStream::<X>::initial(block),
    {
        TransactionStream::new(block)
    }
}

} // verus!
