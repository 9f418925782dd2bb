//! Going through a list of peers, one at a time: each is asked, drained of
//! what it sends, and left for the next; when the list is through, a new
//! list is needed.

use crate::peers::{ids, PeerId};
use vstd::prelude::*;

verus! {

/// What is to be done with the peer at the head of the list.
#[derive(Clone, Copy, Debug, PartialEq, Eq, Structural)]
pub enum Phase {
    /// There is no peer left: a list of peers is needed.
    NeedPeers,
    /// A request is to be sent to the peer.
    Requesting,
    /// The peer took the request and its responses are to be received.
    Draining,
}

/// The peers that are left, the present one first, and what is to be done.
pub struct RotationView {
    pub remaining: Seq<Seq<u8>>,
    pub phase: Phase,
}

impl RotationView {
    /// Whether a list of peers is needed exactly when no peer is left.
    pub open spec fn wf(self) -> bool {
        (self.phase is NeedPeers) == (self.remaining.len() == 0)
    }

    /// A rotation that needs peers.
    pub open spec fn idle() -> RotationView {
        RotationView { remaining: Seq::empty(), phase: Phase::NeedPeers }
    }

    /// After the list `peers` came in. It is taken only where a list is
    /// needed, and an empty list leaves the need.
    pub open spec fn with_peers(self, peers: Seq<Seq<u8>>) -> RotationView {
        if self.phase is NeedPeers && peers.len() > 0 {
            RotationView { remaining: peers, phase: Phase::Requesting }
        } else {
            self
        }
    }

    /// After the present peer was left for the next.
    pub open spec fn rotated(self) -> RotationView {
        if self.remaining.len() <= 1 {
            RotationView::idle()
        } else {
            RotationView { remaining: self.remaining.drop_first(), phase: Phase::Requesting }
        }
    }

    /// After the present peer took the request.
    pub open spec fn accepted(self) -> RotationView {
        if self.phase is Requesting {
            RotationView { phase: Phase::Draining, ..self }
        } else {
            self
        }
    }

    /// After the request to the present peer failed.
    pub open spec fn request_failed(self) -> RotationView {
        if self.phase is Requesting {
            self.rotated()
        } else {
            self
        }
    }

    /// After the present peer sent its last response, or one that cannot be
    /// read.
    pub open spec fn drained(self) -> RotationView {
        if self.phase is Draining {
            self.rotated()
        } else {
            self
        }
    }

    /// After the present peer failed once: at the request if `at_request`,
    /// else after it took the request, without a response that counts.
    pub open spec fn failed(self, at_request: bool) -> RotationView {
        if at_request {
            self.request_failed()
        } else {
            self.accepted().drained()
        }
    }

    /// After one failure of each of the next `how.len()` peers.
    pub open spec fn all_failed(self, how: Seq<bool>) -> RotationView
        decreases how.len(),
    {
        if how.len() == 0 {
            self
        } else {
            self.failed(how[0]).all_failed(how.drop_first())
        }
    }
}

/// When each peer of the list has failed once, a new list is needed.
pub proof fn lemma_all_failed(v: RotationView, how: Seq<bool>)
    requires
        v.wf(),
        v.phase is Requesting || v.phase is NeedPeers,
        how.len() == v.remaining.len(),
    ensures
        v.all_failed(how) == RotationView::idle(),
    decreases how.len(),
{
    if how.len() == 0 {
        assert(v.remaining =~= Seq::empty());
    } else {
        let next = v.failed(how[0]);
        assert(next == v.rotated());
        lemma_all_failed(next, how.drop_first());
    }
}

/// A list of peers and the place in it.
#[derive(Debug)]
pub struct Rotation {
    peers: Vec<PeerId>,
    cursor: usize,
    phase: Phase,
}

impl View for Rotation {
    type V = RotationView;

    closed spec fn view(&self) -> RotationView {
        RotationView { remaining: ids(self.peers@).skip(self.cursor as int), phase: self.phase }
    }
}

impl Rotation {
    /// Whether the place is in the list, and at its end exactly when a list
    /// is needed.
    pub closed spec fn wf(&self) -> bool {
        &&& self.cursor <= self.peers@.len()
        &&& (self.phase is NeedPeers) == (self.cursor == self.peers@.len())
    }

    /// A rotation that needs peers.
    pub fn new() -> (r: Rotation)
        ensures
            r.wf(),
            r@ == RotationView::idle(),
    {
        let r = Rotation { peers: Vec::new(), cursor: 0, phase: Phase::NeedPeers };
        assert(r@.remaining =~= Seq::empty());
        r
    }

    /// What is to be done.
    pub fn phase(&self) -> (p: Phase)
        ensures
            p == self@.phase,
    {
        self.phase
    }

    /// The present peer.
    pub fn current(&self) -> (peer: Option<PeerId>)
        requires
            self.wf(),
        ensures
            self@.wf(),
            self@.phase is NeedPeers ==> peer is None,
            !(self@.phase is NeedPeers) ==> peer is Some && peer->0@ == self@.remaining[0],
    {
        if self.cursor < self.peers.len() {
            Some(self.peers[self.cursor].clone())
        } else {
            None
        }
    }

    /// Takes the list `peers`, where a list is needed.
    pub fn set_peers(&mut self, peers: Vec<PeerId>)
        requires
            old(self).wf(),
        ensures
            final(self).wf(),
            final(self)@ == old(self)@.with_peers(ids(peers@)),
    {
        match self.phase {
            Phase::NeedPeers => {
                if peers.len() > 0 {
                    self.peers = peers;
                    self.cursor = 0;
                    self.phase = Phase::Requesting;
                    assert(self@.remaining =~= ids(peers@));
                }
            },
            _ => {},
        }
    }

    /// Leaves the present peer for the next.
    fn rotate(&mut self)
        requires
            old(self).wf(),
        ensures
            final(self).wf(),
            final(self)@ == old(self)@.rotated(),
    {
        if self.cursor < self.peers.len() && self.cursor + 1 < self.peers.len() {
            self.cursor = self.cursor + 1;
            self.phase = Phase::Requesting;
            assert(self@.remaining =~= old(self)@.remaining.drop_first());
        } else {
            self.peers = Vec::new();
            self.cursor = 0;
            self.phase = Phase::NeedPeers;
            assert(self@.remaining =~= Seq::empty());
        }
    }

    /// Notes that the present peer took the request.
    pub fn accept(&mut self)
        requires
            old(self).wf(),
        ensures
            final(self).wf(),
            final(self)@ == old(self)@.accepted(),
    {
        match self.phase {
            Phase::Requesting => {
                self.phase = Phase::Draining;
            },
            _ => {},
        }
    }

    /// Notes that the request to the present peer failed.
    pub fn fail_request(&mut self)
        requires
            old(self).wf(),
        ensures
            final(self).wf(),
            final(self)@ == old(self)@.request_failed(),
    {
        match self.phase {
            Phase::Requesting => {
                self.rotate();
            },
            _ => {},
        }
    }

    /// Notes that the present peer sent its last response, or one that
    /// cannot be read.
    pub fn drain(&mut self)
        requires
            old(self).wf(),
        ensures
            final(self).wf(),
            final(self)@ == old(self)@.drained(),
    {
        match self.phase {
            Phase::Draining => {
                self.rotate();
            },
            _ => {},
        }
    }
}

} // verus!
