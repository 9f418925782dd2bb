//! The header stream and the transaction stream, each as a machine that
//! says what is to be done next and takes what came of it. Neither ends:
//! a peer that has nothing more is left for the next, and when the list of
//! peers is through, a new list is asked for.

use crate::client::PeerData;
use crate::peers::{ids, PeerId};
use crate::primitives::BlockNumber;
use crate::rotation::{lemma_all_failed, Phase, Rotation, RotationView};
use vstd::prelude::*;

verus! {

/// The direction in which a peer goes through the chain.
#[derive(Clone, Copy, Debug, PartialEq, Eq, Structural)]
pub enum Direction {
    Forward,
    Backward,
}

/// Which blocks a request is about: `limit` blocks from `start` on, each
/// `step` from the one before, in the given direction.
#[derive(Clone, Copy, Debug, PartialEq, Eq, Structural)]
pub struct Iteration {
    pub start: u64,
    pub direction: Direction,
    pub limit: u64,
    pub step: u64,
}

/// A request for block headers.
#[derive(Clone, Copy, Debug, PartialEq, Eq, Structural)]
pub struct BlockHeadersRequest {
    pub iteration: Iteration,
}

/// A request for the transactions of blocks.
#[derive(Clone, Copy, Debug, PartialEq, Eq, Structural)]
pub struct TransactionsRequest {
    pub iteration: Iteration,
}

/// What a peer sends in answer to a request for headers.
#[derive(Debug)]
pub enum BlockHeadersResponse<H> {
    /// A header.
    Header(H),
    /// Something that could not be read as a header.
    Invalid,
    /// The end of the answer.
    Fin,
}

/// What a peer sends in answer to a request for transactions.
#[derive(Debug)]
pub enum TransactionsResponse<X> {
    /// A transaction.
    Transaction(X),
    /// Something that could not be read as a transaction.
    Invalid,
    /// The end of the answer.
    Fin,
}

/// What is to be done next for a stream.
#[derive(Debug)]
pub enum Step<Q> {
    /// A list of peers is to be got, and handed to `on_peers`.
    GetPeers,
    /// `request` is to be sent to `peer`; what came of it is told by
    /// `on_request_accepted` or `on_request_failed`.
    Send { peer: PeerId, request: Q },
    /// The next response of `peer` is to be received, and handed to
    /// `on_response`.
    Receive { peer: PeerId },
}

/// Whether `step` is what the rotation `r` asks for, with `request` as the
/// request to send.
pub open spec fn step_owed<Q>(r: RotationView, request: Q, step: Step<Q>) -> bool {
    match r.phase {
        Phase::NeedPeers => step is GetPeers,
        Phase::Requesting => step matches Step::Send { peer, request: q } && peer@ == r.remaining[0]
            && q == request,
        Phase::Draining => step matches Step::Receive { peer } && peer@ == r.remaining[0],
    }
}

/// The distance between the heights `a` and `b`.
pub open spec fn distance(a: u64, b: u64) -> u64 {
    if a <= b {
        (b - a) as u64
    } else {
        (a - b) as u64
    }
}

/// The state of a header stream.
pub struct HeaderStreamView {
    /// The peers that are left, and what is to be done with the first.
    pub rotation: RotationView,
    /// The height of the next header.
    pub start: u64,
    /// The height of the last header.
    pub stop: u64,
    /// The direction from `start` to `stop`.
    pub direction: Direction,
}

impl HeaderStreamView {
    /// The request that the stream sends.
    pub open spec fn request(self) -> BlockHeadersRequest {
        BlockHeadersRequest {
            iteration: Iteration {
                start: self.start,
                direction: self.direction,
                limit: distance(self.start, self.stop),
                step: 1,
            },
        }
    }

    /// Whether the stream can take a header: going forward, there must be a
    /// height above `start`.
    pub open spec fn can_advance(self) -> bool {
        self.direction is Forward ==> self.start < u64::MAX
    }

    /// Whether `response` is a header that the stream takes: one that comes
    /// while the present peer's responses are received.
    pub open spec fn takes_header<H>(self, response: Option<BlockHeadersResponse<H>>) -> bool {
        &&& self.rotation.phase is Draining
        &&& response is Some
        &&& response->0 is Header
    }

    /// The height of the header after the next: one further in the
    /// direction of the stream, and genesis below genesis.
    pub open spec fn next_start(self) -> u64 {
        match self.direction {
            Direction::Forward => (self.start + 1) as u64,
            Direction::Backward => if self.start == 0 {
                0u64
            } else {
                (self.start - 1) as u64
            },
        }
    }

    /// After a response of the present peer: a header moves `start` on and
    /// the peer stays; anything else, or no response, leaves the peer for
    /// the next. A response that was not asked for changes nothing.
    pub open spec fn after_response<H>(self, response: Option<BlockHeadersResponse<H>>) -> HeaderStreamView {
        if !(self.rotation.phase is Draining) {
            self
        } else if response matches Some(BlockHeadersResponse::Header(_)) {
            HeaderStreamView { start: self.next_start(), ..self }
        } else {
            HeaderStreamView { rotation: self.rotation.drained(), ..self }
        }
    }
}

impl HeaderStreamView {
    /// After the list `peers` came in.
    pub open spec fn with_peers(self, peers: Seq<Seq<u8>>) -> HeaderStreamView {
        HeaderStreamView { rotation: self.rotation.with_peers(peers), ..self }
    }

    /// After the request to the present peer failed.
    pub open spec fn request_failed(self) -> HeaderStreamView {
        HeaderStreamView { rotation: self.rotation.request_failed(), ..self }
    }

    /// After the present peer took the request.
    pub open spec fn request_accepted(self) -> HeaderStreamView {
        HeaderStreamView { rotation: self.rotation.accepted(), ..self }
    }

    /// After the present peer failed once: at the request if `at_request`,
    /// else by ending its answer before it sent a header.
    pub open spec fn peer_failed(self, at_request: bool) -> HeaderStreamView {
        if at_request {
            self.request_failed()
        } else {
            self.request_accepted().after_response::<()>(Some(BlockHeadersResponse::Fin))
        }
    }

    /// After one failure of each of the next `how.len()` peers.
    pub open spec fn all_failed(self, how: Seq<bool>) -> HeaderStreamView
        decreases how.len(),
    {
        if how.len() == 0 {
            self
        } else {
            self.peer_failed(how[0]).all_failed(how.drop_first())
        }
    }
}

/// An answer that ends, one that breaks off and one that cannot be read all
/// leave the header stream in the same state.
pub proof fn lemma_header_answers_without_header<H>(v: HeaderStreamView)
    ensures
        v.after_response::<H>(None) == v.after_response::<H>(Some(BlockHeadersResponse::Fin)),
        v.after_response::<H>(Some(BlockHeadersResponse::Invalid)) == v.after_response::<H>(
            Some(BlockHeadersResponse::Fin),
        ),
        v.after_response::<H>(Some(BlockHeadersResponse::Fin)) == v.after_response::<()>(
            Some(BlockHeadersResponse::Fin),
        ),
{
}

/// The failures of peers move the list of peers on and nothing else.
pub proof fn lemma_header_failures_only_rotate(v: HeaderStreamView, how: Seq<bool>)
    ensures
        v.all_failed(how) == (HeaderStreamView { rotation: v.rotation.all_failed(how), ..v }),
    decreases how.len(),
{
    if how.len() > 0 {
        let next = v.peer_failed(how[0]);
        assert(next == (HeaderStreamView { rotation: v.rotation.failed(how[0]), ..v }));
        lemma_header_failures_only_rotate(next, how.drop_first());
    }
}

/// When each peer of a list has failed once, the header stream has not
/// moved, no peer is left, and the next step is to get a list of peers.
pub proof fn lemma_header_stream_rotates(v: HeaderStreamView, how: Seq<bool>)
    requires
        v.rotation.wf(),
        v.rotation.phase is Requesting || v.rotation.phase is NeedPeers,
        how.len() == v.rotation.remaining.len(),
    ensures
        v.all_failed(how) == (HeaderStreamView { rotation: RotationView::idle(), ..v }),
        forall|step: Step<BlockHeadersRequest>|
            step_owed(v.all_failed(how).rotation, v.all_failed(how).request(), step)
                ==> step is GetPeers,
{
    lemma_header_failures_only_rotate(v, how);
    lemma_all_failed(v.rotation, how);
}

/// A header stream that gets a list of peers of which each fails once asks
/// for a list of peers again, and has not moved.
pub proof fn lemma_header_stream_rediscovers(v: HeaderStreamView, peers: Seq<Seq<u8>>, how: Seq<bool>)
    requires
        v.rotation == RotationView::idle(),
        how.len() == peers.len(),
    ensures
        v.with_peers(peers).all_failed(how) == v,
{
    lemma_header_stream_rotates(v.with_peers(peers), how);
}

/// A stream of headers from `start` towards `stop`.
#[derive(Debug)]
pub struct HeaderStream {
    rotation: Rotation,
    start: BlockNumber,
    stop: BlockNumber,
    direction: Direction,
}

impl View for HeaderStream {
    type V = HeaderStreamView;

    closed spec fn view(&self) -> HeaderStreamView {
        HeaderStreamView {
            rotation: self.rotation@,
            start: self.start.0,
            stop: self.stop.0,
            direction: self.direction,
        }
    }
}

impl HeaderStream {
    /// Whether the list of peers is in order.
    pub closed spec fn wf(&self) -> bool {
        self.rotation.wf()
    }

    /// The state that a stream begins in: without peers; from `start` to
    /// `stop`, or the other way round where `reverse` is set; forward where
    /// it begins at or below its end, else backward.
    pub open spec fn initial(start: BlockNumber, stop: BlockNumber, reverse: bool) -> HeaderStreamView {
        let from = if reverse {
            stop.0
        } else {
            start.0
        };
        let to = if reverse {
            start.0
        } else {
            stop.0
        };
        HeaderStreamView {
            rotation: RotationView::idle(),
            start: from,
            stop: to,
            direction: if from <= to {
                Direction::Forward
            } else {
                Direction::Backward
            },
        }
    }

    /// A stream of the headers from `start` to `stop`, or from `stop` to
    /// `start` where `reverse` is set.
    pub fn new(start: BlockNumber, stop: BlockNumber, reverse: bool) -> (s: HeaderStream)
        ensures
            s.wf(),
            s@ == Self::initial(start, stop, reverse),
    {
        let (from, to) = if reverse {
            (stop, start)
        } else {
            (start, stop)
        };
        let direction = if from.0 <= to.0 {
            Direction::Forward
        } else {
            Direction::Backward
        };
        HeaderStream { rotation: Rotation::new(), start: from, stop: to, direction }
    }

    /// The height of the next header.
    pub fn start(&self) -> (n: BlockNumber)
        ensures
            n.0 == self@.start,
    {
        self.start
    }

    /// Whether the stream can take a header.
    pub fn can_advance(&self) -> (b: bool)
        ensures
            b == self@.can_advance(),
    {
        match self.direction {
            Direction::Forward => self.start.0 < u64::MAX,
            Direction::Backward => true,
        }
    }

    /// What is to be done next.
    pub fn step(&self) -> (step: Step<BlockHeadersRequest>)
        requires
            self.wf(),
        ensures
            self@.rotation.wf(),
            step_owed(self@.rotation, self@.request(), step),
    {
        let limit = if self.start.0 <= self.stop.0 {
            self.stop.0 - self.start.0
        } else {
            self.start.0 - self.stop.0
        };
        let request = BlockHeadersRequest {
            iteration: Iteration { start: self.start.0, direction: self.direction, limit, step: 1 },
        };
        match self.rotation.current() {
            None => Step::GetPeers,
            Some(peer) => match self.rotation.phase() {
                Phase::Draining => Step::Receive { peer },
                _ => Step::Send { peer, request },
            },
        }
    }

    /// Takes a list of peers, where one is needed.
    pub fn on_peers(&mut self, peers: Vec<PeerId>)
        requires
            old(self).wf(),
        ensures
            final(self).wf(),
            final(self)@ == old(self)@.with_peers(ids(peers@)),
    {
        self.rotation.set_peers(peers);
    }

    /// Notes that the request could not be sent: the next peer is tried.
    pub fn on_request_failed(&mut self)
        requires
            old(self).wf(),
        ensures
            final(self).wf(),
            final(self)@ == old(self)@.request_failed(),
    {
        self.rotation.fail_request();
    }

    /// Notes that the peer took the request: its responses are received.
    pub fn on_request_accepted(&mut self)
        requires
            old(self).wf(),
        ensures
            final(self).wf(),
            final(self)@ == old(self)@.request_accepted(),
    {
        self.rotation.accept();
    }

    /// Takes the next response of the present peer, or `None` where the peer
    /// has no more.
    ///
    /// Returns the header to hand on, with the peer it came from.
    pub fn on_response<H>(&mut self, response: Option<BlockHeadersResponse<H>>) -> (out: Option<
        PeerData<H>,
    >)
        requires
            old(self).wf(),
            old(self)@.takes_header(response) ==> old(self)@.can_advance(),
        ensures
            final(self).wf(),
            final(self)@ == old(self)@.after_response(response),
            match response {
                Some(BlockHeadersResponse::Header(header)) => if old(self)@.rotation.phase
                    is Draining {
                    out is Some && out->0.peer@ == old(self)@.rotation.remaining[0] && out->0.data
                        == header
                } else {
                    out is None
                },
                _ => out is None,
            },
    {
        match self.rotation.phase() {
            Phase::Draining => {},
            _ => {
                return None;
            },
        }
        match response {
            Some(BlockHeadersResponse::Header(header)) => {
                let peer = self.rotation.current();
                self.start = match self.direction {
                    Direction::Forward => BlockNumber(self.start.0 + 1),
                    Direction::Backward => match self.start.parent() {
                        Some(parent) => parent,
                        None => BlockNumber::genesis(),
                    },
                };
                match peer {
                    Some(peer) => Some(PeerData::new(peer, header)),
                    None => None,
                }
            },
            _ => {
                self.rotation.drain();
                None
            },
        }
    }
}

/// The state of a transaction stream.
pub struct TransactionStreamView<X> {
    /// The peers that are left, and what is to be done with the first.
    pub rotation: RotationView,
    /// The height of the block whose transactions are asked for.
    pub block: u64,
    /// The transactions that the present peer has sent so far.
    pub collected: Seq<X>,
}

impl<X> TransactionStreamView<X> {
    /// The request that the stream sends: for one block.
    pub open spec fn request(self) -> TransactionsRequest {
        TransactionsRequest {
            iteration: Iteration {
                start: self.block,
                direction: Direction::Forward,
                limit: 1,
                step: 1,
            },
        }
    }

    /// After a response of the present peer: a transaction is collected and
    /// the peer stays; anything else, or no response, leaves the peer for the
    /// next, with nothing collected. A response that was not asked for
    /// changes nothing.
    pub open spec fn after_response(self, response: Option<TransactionsResponse<X>>) -> TransactionStreamView<
        X,
    > {
        if !(self.rotation.phase is Draining) {
            self
        } else {
            match response {
                Some(TransactionsResponse::Transaction(x)) => TransactionStreamView {
                    collected: self.collected.push(x),
                    ..self
                },
                _ => TransactionStreamView {
                    rotation: self.rotation.drained(),
                    collected: Seq::empty(),
                    ..self
                },
            }
        }
    }

    /// What the stream hands on at this response: at the end of the answer,
    /// all that the peer has sent; before it, and where the answer breaks
    /// off or cannot be read, nothing.
    pub open spec fn yields(self, response: Option<TransactionsResponse<X>>) -> Option<Seq<X>> {
        if self.rotation.phase is Draining && response matches Some(TransactionsResponse::Fin) {
            Some(self.collected)
        } else {
            None
        }
    }
}

/// A stream of the transactions of one block, once from each peer.
#[derive(Debug)]
pub struct TransactionStream<X> {
    rotation: Rotation,
    block: BlockNumber,
    transactions: Vec<X>,
}

impl<X> View for TransactionStream<X> {
    type V = TransactionStreamView<X>;

    closed spec fn view(&self) -> TransactionStreamView<X> {
        TransactionStreamView {
            rotation: self.rotation@,
            block: self.block.0,
            collected: self.transactions@,
        }
    }
}

impl<X> TransactionStream<X> {
    /// Whether the list of peers is in order, and something is collected
    /// only while a peer's responses are received.
    pub closed spec fn wf(&self) -> bool {
        &&& self.rotation.wf()
        &&& !(self.rotation@.phase is Draining) ==> self.transactions@.len() == 0
    }

    /// The state that a stream begins in: without peers.
    pub open spec fn initial(block: BlockNumber) -> TransactionStreamView<X> {
        TransactionStreamView {
            rotation: RotationView::idle(),
            block: block.0,
            collected: Seq::empty(),
        }
    }

    /// A stream of the transactions of the block at the height `block`.
    pub fn new(block: BlockNumber) -> (s: TransactionStream<X>)
        ensures
            s.wf(),
            s@ == Self::initial(block),
    {
        TransactionStream { rotation: Rotation::new(), block, transactions: Vec::new() }
    }

    /// What is to be done next.
    pub fn step(&self) -> (step: Step<TransactionsRequest>)
        requires
            self.wf(),
        ensures
            self@.rotation.wf(),
            step_owed(self@.rotation, self@.request(), step),
    {
        let request = TransactionsRequest {
            iteration: Iteration {
                start: self.block.0,
                direction: Direction::Forward,
                limit: 1,
                step: 1,
            },
        };
        match self.rotation.current() {
            None => Step::GetPeers,
            Some(peer) => match self.rotation.phase() {
                Phase::Draining => Step::Receive { peer },
                _ => Step::Send { peer, request },
            },
        }
    }

    /// Takes a list of peers, where one is needed.
    pub fn on_peers(&mut self, peers: Vec<PeerId>)
        requires
            old(self).wf(),
        ensures
            final(self).wf(),
            final(self)@ == (TransactionStreamView {
                rotation: old(self)@.rotation.with_peers(ids(peers@)),
                ..old(self)@
            }),
    {
        self.rotation.set_peers(peers);
    }

    /// Notes that the request could not be sent: the next peer is tried.
    pub fn on_request_failed(&mut self)
        requires
            old(self).wf(),
        ensures
            final(self).wf(),
            final(self)@ == (TransactionStreamView {
                rotation: old(self)@.rotation.request_failed(),
                ..old(self)@
            }),
    {
        self.rotation.fail_request();
    }

    /// Notes that the peer took the request: its responses are received.
    pub fn on_request_accepted(&mut self)
        requires
            old(self).wf(),
        ensures
            final(self).wf(),
            final(self)@ == (TransactionStreamView {
                rotation: old(self)@.rotation.accepted(),
                ..old(self)@
            }),
    {
        self.rotation.accept();
    }

    /// Takes the next response of the present peer, or `None` where the peer
    /// has no more.
    ///
    /// Returns the transactions to hand on, with the peer they came from.
    pub fn on_response(&mut self, response: Option<TransactionsResponse<X>>) -> (out: Option<
        PeerData<Vec<X>>,
    >)
        requires
            old(self).wf(),
        ensures
            final(self).wf(),
            final(self)@ == old(self)@.after_response(response),
            match old(self)@.yields(response) {
                Some(all) => out is Some && out->0.peer@ == old(self)@.rotation.remaining[0]
                    && out->0.data@ == all,
                None => out is None,
            },
    {
        match self.rotation.phase() {
            Phase::Draining => {},
            _ => {
                return None;
            },
        }
        match response {
            Some(TransactionsResponse::Transaction(x)) => {
                self.transactions.push(x);
                None
            },
            Some(TransactionsResponse::Fin) => {
                let peer = self.rotation.current();
                let mut all: Vec<X> = Vec::new();
                core::mem::swap(&mut all, &mut self.transactions);
                self.rotation.drain();
                match peer {
                    Some(peer) => Some(PeerData::new(peer, all)),
                    None => None,
                }
            },
            _ => {
                self.transactions = Vec::new();
                self.rotation.drain();
                None
            },
        }
    }
}

} // verus!
