//! Peers: their identities, and sets of them.

use vstd::prelude::*;

verus! {

/// The identity of a peer: the bytes of its multihash.
#[derive(Debug, PartialEq, Eq, Hash)]
pub struct PeerId {
    bytes: Vec<u8>,
}

impl View for PeerId {
    type V = Seq<u8>;

    closed spec fn view(&self) -> Seq<u8> {
        self.bytes@
    }
}

/// A copy of `bytes`.
fn copy_bytes(bytes: &Vec<u8>) -> (copy: Vec<u8>)
    ensures
        copy@ == bytes@,
{
    let mut copy: Vec<u8> = Vec::new();
    let mut i: usize = 0;
    while i < bytes.len()
        invariant
            i <= bytes.len(),
            copy@ == bytes@.take(i as int),
        decreases bytes.len() - i,
    {
        copy.push(bytes[i]);
        assert(copy@ =~= bytes@.take(i + 1));
        i = i + 1;
    }
    assert(bytes@.take(i as int) =~= bytes@);
    copy
}

impl PeerId {
    /// The peer with the multihash `bytes`.
    pub fn from_bytes(bytes: Vec<u8>) -> (id: PeerId)
        ensures
            id@ == bytes@,
    {
        PeerId { bytes }
    }

    /// The bytes of the peer's multihash.
    pub fn to_bytes(&self) -> (bytes: Vec<u8>)
        ensures
            bytes@ == self@,
    {
        copy_bytes(&self.bytes)
    }

    /// Whether `self` and `other` are one peer.
    pub fn same(&self, other: &PeerId) -> (b: bool)
        ensures
            b == (self@ == other@),
    {
        if self.bytes.len() != other.bytes.len() {
            return false;
        }
        let mut i: usize = 0;
        while i < self.bytes.len()
            invariant
                i <= self.bytes.len(),
                self.bytes.len() == other.bytes.len(),
                forall|k: int| 0 <= k < i ==> self.bytes@[k] == other.bytes@[k],
            decreases self.bytes.len() - i,
        {
            if self.bytes[i] != other.bytes[i] {
                return false;
            }
            i = i + 1;
        }
        assert(self.bytes@ =~= other.bytes@);
        true
    }
}

impl Clone for PeerId {
    fn clone(&self) -> (id: PeerId)
        ensures
            id@ == self@,
    {
        PeerId { bytes: copy_bytes(&self.bytes) }
    }
}

/// The identities of the peers of `s`, in order.
pub open spec fn ids(s: Seq<PeerId>) -> Seq<Seq<u8>> {
    Seq::new(s.len(), |i: int| s[i]@)
}

/// Whether no peer occurs twice in `s`.
pub open spec fn distinct(s: Seq<Seq<u8>>) -> bool {
    forall|i: int, j: int| 0 <= i < j < s.len() ==> s[i] != s[j]
}

/// A sequence of peers and the same peers in another order hold the same
/// number of peers and the same set of them, and if no peer occurs twice in
/// the one, none does in the other.
pub proof fn lemma_reordered(a: Seq<Seq<u8>>, b: Seq<Seq<u8>>)
    requires
        a.to_multiset() == b.to_multiset(),
    ensures
        a.len() == b.len(),
        a.to_set() == b.to_set(),
        distinct(a) ==> distinct(b),
{
    a.to_multiset_ensures();
    b.to_multiset_ensures();
    assert forall|x: Seq<u8>| a.to_set().contains(x) <==> b.to_set().contains(x) by {
        assert(a.contains(x) <==> a.to_multiset().count(x) > 0);
        assert(b.contains(x) <==> b.to_multiset().count(x) > 0);
    }
    assert(a.to_set() =~= b.to_set());
    if distinct(a) {
        assert(a.no_duplicates());
        a.lemma_multiset_has_no_duplicates();
        b.lemma_multiset_has_no_duplicates_conv();
        assert(b.no_duplicates());
    }
}

/// Copies of the peers of `peers`, in order.
pub fn clone_peers(peers: &Vec<PeerId>) -> (copy: Vec<PeerId>)
    ensures
        ids(copy@) == ids(peers@),
        copy@.len() == peers@.len(),
{
    let mut copy: Vec<PeerId> = Vec::new();
    let mut i: usize = 0;
    while i < peers.len()
        invariant
            i <= peers.len(),
            copy@.len() == i,
            forall|k: int| 0 <= k < i ==> (#[trigger] copy@[k])@ == peers@[k]@,
        decreases peers.len() - i,
    {
        copy.push(peers[i].clone());
        i = i + 1;
    }
    assert(ids(copy@) =~= ids(peers@));
    copy
}

/// A set of peers.
#[derive(Debug)]
pub struct PeerSet {
    peers: Vec<PeerId>,
}

impl View for PeerSet {
    type V = Set<Seq<u8>>;

    closed spec fn view(&self) -> Set<Seq<u8>> {
        ids(self.peers@).to_set()
    }
}

impl PeerSet {
    /// Whether no peer is held twice.
    pub closed spec fn wf(&self) -> bool {
        distinct(ids(self.peers@))
    }

    /// The number of peers.
    pub closed spec fn spec_len(&self) -> nat {
        self.peers@.len()
    }

    /// The set without peers.
    pub fn new() -> (s: PeerSet)
        ensures
            s.wf(),
            s@ == Set::<Seq<u8>>::empty(),
            s.spec_len() == 0,
    {
        let s = PeerSet { peers: Vec::new() };
        assert(s@ =~= Set::<Seq<u8>>::empty());
        s
    }

    /// The number of peers.
    pub fn len(&self) -> (n: usize)
        ensures
            n == self.spec_len(),
    {
        self.peers.len()
    }

    /// The place of `peer` among the peers held.
    fn position(&self, peer: &PeerId) -> (pos: Option<usize>)
        ensures
            match pos {
                Some(i) => i < self.peers@.len() && self.peers@[i as int]@ == peer@,
                None => !self@.contains(peer@),
            },
    {
        let mut i: usize = 0;
        while i < self.peers.len()
            invariant
                i <= self.peers.len(),
                forall|k: int| 0 <= k < i ==> (#[trigger] self.peers@[k])@ != peer@,
            decreases self.peers.len() - i,
        {
            if self.peers[i].same(peer) {
                return Some(i);
            }
            i = i + 1;
        }
        proof {
            let s = ids(self.peers@);
            assert forall|k: int| 0 <= k < s.len() implies s[k] != peer@ by {
                assert(self.peers@[k]@ != peer@);
            }
        }
        None
    }

    /// Whether `peer` is in the set.
    pub fn contains(&self, peer: &PeerId) -> (b: bool)
        ensures
            b == self@.contains(peer@),
    {
        match self.position(peer) {
            Some(i) => {
                assert(ids(self.peers@)[i as int] == peer@);
                true
            },
            None => false,
        }
    }

    /// Puts `peer` into the set.
    ///
    /// Returns whether the peer was new to the set.
    pub fn insert(&mut self, peer: PeerId) -> (added: bool)
        requires
            old(self).wf(),
        ensures
            final(self).wf(),
            added == !old(self)@.contains(peer@),
            final(self)@ == old(self)@.insert(peer@),
            final(self).spec_len() == old(self).spec_len() + if added {
                1nat
            } else {
                0nat
            },
    {
        if self.contains(&peer) {
            assert(self@ =~= self@.insert(peer@));
            false
        } else {
            let ghost before = ids(self.peers@);
            self.peers.push(peer);
            proof {
                let after = ids(self.peers@);
                assert(after =~= before.push(peer@));
                assert forall|i: int, j: int| 0 <= i < j < after.len() implies after[i]
                    != after[j] by {
                    if j == before.len() {
                        assert(before[i] == after[i]);
                        assert(before.to_set().contains(before[i]));
                    } else {
                        assert(before[i] == after[i] && before[j] == after[j]);
                    }
                }
                assert forall|b: Seq<u8>| after.to_set().contains(b) <==> before.to_set().insert(
                    peer@,
                ).contains(b) by {
                    if after.to_set().contains(b) {
                        let k = choose|k: int| 0 <= k < after.len() && after[k] == b;
                        if k < before.len() {
                            assert(before[k] == b);
                        }
                    }
                    if before.to_set().contains(b) {
                        let k = choose|k: int| 0 <= k < before.len() && before[k] == b;
                        assert(after[k] == b);
                    }
                    if b == peer@ {
                        assert(after[before.len() as int] == b);
                    }
                }
                assert(after.to_set() =~= before.to_set().insert(peer@));
            }
            true
        }
    }

    /// Takes `peer` out of the set.
    ///
    /// Returns whether the peer was in the set.
    pub fn remove(&mut self, peer: &PeerId) -> (present: bool)
        requires
            old(self).wf(),
        ensures
            final(self).wf(),
            present == old(self)@.contains(peer@),
            final(self)@ == old(self)@.remove(peer@),
            final(self).spec_len() == old(self).spec_len() - if present {
                1nat
            } else {
                0nat
            },
    {
        match self.position(peer) {
            Some(i) => {
                let ghost before = ids(self.peers@);
                assert(before[i as int] == peer@);
                self.peers.remove(i);
                proof {
                    let after = ids(self.peers@);
                    assert(after =~= before.remove(i as int));
                    assert forall|a: int, b: int| 0 <= a < b < after.len() implies after[a]
                        != after[b] by {
                        let a0 = if a < i { a } else { a + 1 };
                        let b0 = if b < i { b } else { b + 1 };
                        assert(after[a] == before[a0] && after[b] == before[b0]);
                    }
                    assert forall|x: Seq<u8>| after.to_set().contains(x) <==> before.to_set().remove(
                        peer@,
                    ).contains(x) by {
                        if after.to_set().contains(x) {
                            let k = choose|k: int| 0 <= k < after.len() && after[k] == x;
                            let k0 = if k < i { k } else { k + 1 };
                            assert(before[k0] == x);
                            if x == peer@ {
                                if k0 < i {
                                    assert(before[k0] != before[i as int]);
                                } else {
                                    assert(before[i as int] != before[k0]);
                                }
                            }
                        }
                        if before.to_set().remove(peer@).contains(x) {
                            let k = choose|k: int| 0 <= k < before.len() && before[k] == x;
                            let k1 = if k < i { k } else { k - 1 };
                            assert(after[k1] == x);
                        }
                    }
                    assert(after.to_set() =~= before.to_set().remove(peer@));
                }
                true
            },
            None => {
                assert(self@ =~= self@.remove(peer@));
                false
            },
        }
    }

    /// The peers of the set, each once.
    pub fn to_vec(&self) -> (peers: Vec<PeerId>)
        requires
            self.wf(),
        ensures
            distinct(ids(peers@)),
            ids(peers@).to_set() == self@,
            peers@.len() == self.spec_len(),
    {
        clone_peers(&self.peers)
    }

    /// The set of the peers of `peers`.
    pub fn from_vec(peers: Vec<PeerId>) -> (s: PeerSet)
        ensures
            s.wf(),
            s@ == ids(peers@).to_set(),
    {
        let mut s = PeerSet::new();
        let mut peers = peers;
        let ghost all = ids(peers@);
        while peers.len() > 0
            invariant
                s.wf(),
                peers@.len() <= all.len(),
                ids(peers@) == all.take(peers@.len() as int),
                forall|b: Seq<u8>|
                    s@.contains(b) <==> exists|k: int|
                        peers@.len() <= k < all.len() && #[trigger] all[k] == b,
            decreases peers@.len(),
        {
            let ghost n = peers@.len() - 1;
            let ghost before = s@;
            assert(ids(peers@)[n] == all[n]);
            let peer = peers.pop().unwrap();
            assert(peer@ == all[n]);
            s.insert(peer);
            proof {
                assert(ids(peers@) =~= all.take(n));
                assert forall|b: Seq<u8>| s@.contains(b) <==> exists|k: int|
                    n <= k < all.len() && #[trigger] all[k] == b by {
                    if before.contains(b) {
                        let k = choose|k: int| n + 1 <= k < all.len() && #[trigger] all[k] == b;
                        assert(n <= k < all.len() && all[k] == b);
                    }
                    if exists|k: int| n <= k < all.len() && #[trigger] all[k] == b {
                        let k = choose|k: int| n <= k < all.len() && #[trigger] all[k] == b;
                        if k > n {
                            assert(n + 1 <= k < all.len() && all[k] == b);
                        }
                    }
                }
            }
        }
        proof {
            assert forall|b: Seq<u8>| s@.contains(b) <==> all.to_set().contains(b) by {
                if s@.contains(b) {
                    let k = choose|k: int| 0 <= k < all.len() && #[trigger] all[k] == b;
                    assert(all[k] == b);
                }
                if all.to_set().contains(b) {
                    let k = choose|k: int| 0 <= k < all.len() && all[k] == b;
                    assert(0 <= k < all.len() && all[k] == b);
                }
            }
            assert(s@ =~= all.to_set());
        }
        s
    }
}

} // verus!
