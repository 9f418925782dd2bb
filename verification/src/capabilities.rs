//! Which peers offer which capability, as far as the node knows, and for how
//! long it may rely on what it knows.

use crate::peers::PeerSet;
use std::time::{Duration, Instant};
use vstd::prelude::*;

verus! {

/// `std::time::Instant`: a moment on the machine's monotonic clock. The
/// library keeps such moments and hands them back to std; it sees nothing
/// inside one.
#[verifier::external_type_specification]
#[verifier::external_body]
pub struct ExInstant(std::time::Instant);

/// The present moment, from `std::time::Instant::now`. Nothing is claimed of
/// it.
#[verifier::external_body]
pub(crate) fn now() -> (t: Instant) {
    Instant::now()
}

/// The time that has passed since `then`, from `std::time::Instant::elapsed`.
/// Nothing is claimed of it.
#[verifier::external_body]
fn elapsed_since(then: &Instant) -> (d: Duration) {
    then.elapsed()
}

/// The nanoseconds that `d` spans, from `std::time::Duration::as_nanos`.
/// Nothing is claimed of the number.
#[verifier::external_body]
fn as_nanos(d: &Duration) -> (nanos: u128) {
    d.as_nanos()
}

/// The nanoseconds of a minute: the time for which what is learnt counts
/// where no other time is given.
pub const DEFAULT_TIMEOUT_NANOS: u128 = 60_000_000_000;

/// The peers that offer one capability.
#[derive(Debug)]
struct Entry {
    capability: String,
    peers: PeerSet,
}

/// Whether no capability is named twice in `s`.
spec fn distinct_names(s: Seq<Entry>) -> bool {
    forall|i: int, j: int|
        0 <= i < j < s.len() ==> (#[trigger] s[i]).capability@ != (#[trigger] s[j]).capability@
}

/// Whether an entry of `s` is for the capability `c`.
spec fn has_name(s: Seq<Entry>, c: Seq<char>) -> bool {
    exists|i: int| 0 <= i < s.len() && (#[trigger] s[i]).capability@ == c
}

/// The peer sets of `s` by the capability they are for.
spec fn entry_map(s: Seq<Entry>) -> Map<Seq<char>, Set<Seq<u8>>> {
    Map::new(
        |c: Seq<char>| has_name(s, c),
        |c: Seq<char>| s[choose|i: int| 0 <= i < s.len() && (#[trigger] s[i]).capability@ == c].peers@,
    )
}

proof fn lemma_entry_map_at(s: Seq<Entry>, i: int)
    requires
        distinct_names(s),
        0 <= i < s.len(),
    ensures
        entry_map(s).dom().contains(s[i].capability@),
        entry_map(s)[s[i].capability@] == s[i].peers@,
{
    let c = s[i].capability@;
    assert(has_name(s, c));
    let j = choose|j: int| 0 <= j < s.len() && (#[trigger] s[j]).capability@ == c;
    if j < i {
        assert(s[j].capability@ != s[i].capability@);
    } else if i < j {
        assert(s[i].capability@ != s[j].capability@);
    }
}

/// Putting a peer set under a capability, in place of the set held for it
/// or as a new entry at the end, puts it into the map and leaves the rest.
proof fn lemma_entry_map_put(
    before: Seq<Entry>,
    after: Seq<Entry>,
    i: int,
    c: Seq<char>,
    p: Set<Seq<u8>>,
)
    requires
        distinct_names(before),
        0 <= i < after.len(),
        i <= before.len(),
        after[i].capability@ == c,
        after[i].peers@ == p,
        i < before.len() ==> after.len() == before.len(),
        i == before.len() ==> after.len() == before.len() + 1,
        i < before.len() ==> before[i].capability@ == c,
        i == before.len() ==> !has_name(before, c),
        forall|k: int|
            0 <= k < before.len() && k != i ==> (#[trigger] after[k]).capability@
                == before[k].capability@ && after[k].peers@ == before[k].peers@,
    ensures
        distinct_names(after),
        entry_map(after) == entry_map(before).insert(c, p),
{
    assert forall|k: int| 0 <= k < before.len() implies (#[trigger] after[k]).capability@
        == before[k].capability@ by {}
    assert(distinct_names(after)) by {
        assert forall|a: int, b: int| 0 <= a < b < after.len() implies (
        #[trigger] after[a]).capability@ != (#[trigger] after[b]).capability@ by {
            if b < before.len() {
                assert(before[a].capability@ != before[b].capability@);
            } else {
                assert(before[a].capability@ == after[a].capability@);
            }
        }
    }
    let m1 = entry_map(after);
    let m2 = entry_map(before).insert(c, p);
    assert forall|n: Seq<char>| m1.dom().contains(n) <==> m2.dom().contains(n) by {
        if has_name(after, n) {
            let k = choose|k: int| 0 <= k < after.len() && (#[trigger] after[k]).capability@ == n;
            if k < before.len() {
                assert(before[k].capability@ == n);
            }
        }
        if has_name(before, n) {
            let k = choose|k: int|
                0 <= k < before.len() && (#[trigger] before[k]).capability@ == n;
            assert(after[k].capability@ == n);
        }
        if n == c {
            assert(after[i].capability@ == c);
        }
    }
    assert forall|n: Seq<char>| m1.dom().contains(n) implies m1[n] == m2[n] by {
        let k = choose|k: int| 0 <= k < after.len() && (#[trigger] after[k]).capability@ == n;
        lemma_entry_map_at(after, k);
        if k != i {
            assert(before[k].capability@ == n);
            lemma_entry_map_at(before, k);
            if i < before.len() {
                if k < i {
                    assert(before[k].capability@ != before[i].capability@);
                } else {
                    assert(before[i].capability@ != before[k].capability@);
                }
            }
        }
    }
    assert(m1 =~= m2);
}

/// The peers that offer each capability, with one clock for all of them:
/// once more than `timeout` nanoseconds have passed since the last update,
/// nothing of it counts.
#[derive(Debug)]
pub struct PeersWithCapability {
    set: Vec<Entry>,
    last_update: Instant,
    timeout: u128,
}

impl View for PeersWithCapability {
    type V = Map<Seq<char>, Set<Seq<u8>>>;

    /// The peers held for each capability, whatever the clock says.
    closed spec fn view(&self) -> Map<Seq<char>, Set<Seq<u8>>> {
        entry_map(self.set@)
    }
}

impl PeersWithCapability {
    /// Whether each capability is held once, with a set that is in order.
    pub closed spec fn wf(&self) -> bool {
        &&& distinct_names(self.set@)
        &&& forall|i: int| 0 <= i < self.set@.len() ==> (#[trigger] self.set@[i]).peers.wf()
    }

    /// The time for which what is learnt counts, in nanoseconds.
    pub closed spec fn timeout(&self) -> u128 {
        self.timeout
    }

    /// The moment of the last update: where the clock started.
    pub closed spec fn last_update(&self) -> Instant {
        self.last_update
    }

    /// Knows of no peers, counts what it learns for `timeout` nanoseconds,
    /// and has its clock started at the moment `at`.
    pub fn new_at(timeout: u128, at: Instant) -> (p: Self)
        ensures
            p.wf(),
            p@ == Map::<Seq<char>, Set<Seq<u8>>>::empty(),
            p.timeout() == timeout,
            p.last_update() == at,
    {
        let p = PeersWithCapability { set: Vec::new(), last_update: at, timeout };
        assert(p@ =~= Map::<Seq<char>, Set<Seq<u8>>>::empty());
        p
    }

    /// Knows of no peers, and counts what it learns for `timeout`
    /// nanoseconds from now on.
    pub fn new(timeout: u128) -> (p: Self)
        ensures
            p.wf(),
            p@ == Map::<Seq<char>, Set<Seq<u8>>>::empty(),
            p.timeout() == timeout,
    {
        Self::new_at(timeout, now())
    }

    /// The place of the entry for `capability`.
    fn position(&self, capability: &str) -> (pos: Option<usize>)
        ensures
            match pos {
                Some(i) => i < self.set@.len() && self.set@[i as int].capability@ == capability@,
                None => !has_name(self.set@, capability@),
            },
    {
        let name = capability.to_owned();
        let mut i: usize = 0;
        while i < self.set.len()
            invariant
                i <= self.set.len(),
                name@ == capability@,
                forall|k: int| 0 <= k < i ==> (#[trigger] self.set@[k]).capability@ != capability@,
            decreases self.set.len() - i,
        {
            if self.set[i].capability == name {
                return Some(i);
            }
            i = i + 1;
        }
        None
    }

    /// The peers held for `capability`, where `elapsed` nanoseconds have
    /// passed since the last update: once that is more than the timeout,
    /// nothing is handed out, whatever is held.
    pub fn get_at(&self, elapsed: u128, capability: &str) -> (peers: Option<&PeerSet>)
        requires
            self.wf(),
        ensures
            peers is Some <==> elapsed <= self.timeout() && self@.dom().contains(capability@),
            peers matches Some(set) ==> set.wf() && set@ == self@[capability@],
    {
        if elapsed > self.timeout {
            return None;
        }
        match self.position(capability) {
            Some(i) => {
                proof {
                    lemma_entry_map_at(self.set@, i as int);
                }
                Some(&self.set[i].peers)
            },
            None => None,
        }
    }

    /// The nanoseconds that have passed since the last update. The number
    /// is the clock's: nothing is known of it beforehand.
    pub(crate) fn elapsed(&self) -> (nanos: u128) {
        let elapsed = elapsed_since(&self.last_update);
        as_nanos(&elapsed)
    }

    /// The peers held for `capability`, unless the timeout has passed since
    /// the last update: then nothing is handed out, whatever is held.
    pub fn get(&self, capability: &str) -> (peers: Option<&PeerSet>)
        requires
            self.wf(),
        ensures
            peers matches Some(set) ==> self@.dom().contains(capability@) && set.wf() && set@
                == self@[capability@],
            !self@.dom().contains(capability@) ==> peers is None,
    {
        let elapsed = self.elapsed();
        self.get_at(elapsed, capability)
    }

    /// Holds `peers` for `capability` from now on, in place of what was held
    /// for it, and starts the clock anew for all capabilities.
    pub fn update(&mut self, capability: &str, peers: PeerSet)
        requires
            old(self).wf(),
            peers.wf(),
        ensures
            final(self).wf(),
            final(self)@ == old(self)@.insert(capability@, peers@),
            final(self).timeout() == old(self).timeout(),
    {
        self.update_at(now(), capability, peers)
    }

    /// Holds `peers` for `capability`, in place of what was held for it,
    /// and starts the clock anew for all capabilities, at the moment `at`.
    pub fn update_at(&mut self, at: Instant, capability: &str, peers: PeerSet)
        requires
            old(self).wf(),
            peers.wf(),
        ensures
            final(self).wf(),
            final(self)@ == old(self)@.insert(capability@, peers@),
            final(self).timeout() == old(self).timeout(),
            final(self).last_update() == at,
    {
        self.last_update = at;
        let ghost before = self.set@;
        let ghost c = capability@;
        let ghost p = peers@;
        match self.position(capability) {
            Some(i) => {
                self.set[i].peers = peers;
                proof {
                    lemma_entry_map_put(before, self.set@, i as int, c, p);
                }
            },
            None => {
                self.set.push(Entry { capability: capability.to_owned(), peers });
                proof {
                    lemma_entry_map_put(before, self.set@, before.len() as int, c, p);
                }
            },
        }
    }
}

impl Default for PeersWithCapability {
    /// Knows of no peers, and counts what it learns for a minute.
    fn default() -> (p: Self)
        ensures
            p.wf(),
            p@ == Map::<Seq<char>, Set<Seq<u8>>>::empty(),
            p.timeout() == DEFAULT_TIMEOUT_NANOS,
    {
        Self::new(DEFAULT_TIMEOUT_NANOS)
    }
}

} // verus!
