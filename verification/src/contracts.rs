//! Contract definitions by their hash.

use crate::chain::ClassHash;
use vstd::prelude::*;

verus! {

/// A contract definition as a producer hands it over: content-addressed by
/// `hash`, with the bytecode compressed.
#[derive(Clone, Debug, PartialEq, Eq)]
pub struct ContractDefinition {
    pub hash: ClassHash,
    pub bytecode: Vec<u8>,
    pub abi: Vec<u8>,
}

/// What is stored of a definition under its hash.
pub struct ContractCode {
    pub bytecode: Seq<u8>,
    pub abi: Seq<u8>,
}

impl ContractDefinition {
    /// The stored part of the definition.
    pub open spec fn code(&self) -> ContractCode {
        ContractCode { bytecode: self.bytecode@, abi: self.abi@ }
    }
}

/// Whether a definition of `defs` has the hash `h`.
pub open spec fn has_hash(defs: Seq<ContractDefinition>, h: ClassHash) -> bool {
    exists|i: int| 0 <= i < defs.len() && (#[trigger] defs[i]).hash == h
}

/// Whether the hashes of `defs` differ from one another.
pub open spec fn distinct_hashes(defs: Seq<ContractDefinition>) -> bool {
    forall|i: int, j: int|
        0 <= i < j < defs.len() ==> (#[trigger] defs[i]).hash != (#[trigger] defs[j]).hash
}

/// The code of the definitions of `defs` by their hash.
pub open spec fn code_map(defs: Seq<ContractDefinition>) -> Map<ClassHash, ContractCode> {
    Map::new(
        |h: ClassHash| has_hash(defs, h),
        |h: ClassHash|
            defs[choose|i: int| 0 <= i < defs.len() && (#[trigger] defs[i]).hash == h].code(),
    )
}

/// `m` after the definition with hash `h` and code `code` was handed in:
/// a hash that is present keeps its code.
pub open spec fn with_contract(
    m: Map<ClassHash, ContractCode>,
    h: ClassHash,
    code: ContractCode,
) -> Map<ClassHash, ContractCode> {
    if m.dom().contains(h) {
        m
    } else {
        m.insert(h, code)
    }
}

proof fn lemma_code_map_at(defs: Seq<ContractDefinition>, i: int)
    requires
        distinct_hashes(defs),
        0 <= i < defs.len(),
    ensures
        code_map(defs).dom().contains(defs[i].hash),
        code_map(defs)[defs[i].hash] == defs[i].code(),
{
    let h = defs[i].hash;
    assert(has_hash(defs, h));
    let j = choose|j: int| 0 <= j < defs.len() && (#[trigger] defs[j]).hash == h;
    if j < i {
        assert(defs[j].hash != defs[i].hash);
    } else if i < j {
        assert(defs[i].hash != defs[j].hash);
    }
}

proof fn lemma_code_map_push(defs: Seq<ContractDefinition>, def: ContractDefinition)
    requires
        distinct_hashes(defs),
        !has_hash(defs, def.hash),
    ensures
        distinct_hashes(defs.push(def)),
        code_map(defs.push(def)) == code_map(defs).insert(def.hash, def.code()),
{
    let t = defs.push(def);
    let n = defs.len() as int;
    assert(t[n] == def);
    assert forall|i: int| 0 <= i < n implies #[trigger] t[i] == defs[i] by {}
    assert(distinct_hashes(t)) by {
        assert forall|i: int, j: int| 0 <= i < j < t.len() implies (#[trigger] t[i]).hash != (
        #[trigger] t[j]).hash by {
            assert(t[i] == defs[i]);
            if j < n {
                assert(t[j] == defs[j]);
            }
        }
    }
    let m1 = code_map(t);
    let m2 = code_map(defs).insert(def.hash, def.code());
    assert forall|h: ClassHash| m1.dom().contains(h) <==> m2.dom().contains(h) by {
        if m1.dom().contains(h) {
            let i = choose|i: int| 0 <= i < t.len() && (#[trigger] t[i]).hash == h;
            if i < n {
                assert(t[i] == defs[i]);
                assert(has_hash(defs, h));
            }
        }
        if m2.dom().contains(h) {
            if h == def.hash {
                assert(has_hash(t, h));
            } else {
                let i = choose|i: int| 0 <= i < defs.len() && (#[trigger] defs[i]).hash == h;
                assert(t[i] == defs[i]);
                assert(has_hash(t, h));
            }
        }
    }
    assert forall|h: ClassHash| m1.dom().contains(h) implies m1[h] == m2[h] by {
        let i = choose|i: int| 0 <= i < t.len() && (#[trigger] t[i]).hash == h;
        lemma_code_map_at(t, i);
        if i < n {
            assert(t[i] == defs[i]);
            lemma_code_map_at(defs, i);
        }
    }
    assert(m1 =~= m2);
}

/// The contract definitions that the node holds.
pub struct ContractCodeTable {
    defs: Vec<ContractDefinition>,
}

impl ContractCodeTable {
    /// Whether no hash is stored twice.
    pub closed spec fn wf(&self) -> bool {
        distinct_hashes(self.defs@)
    }

    /// The stored code by the hash of its definition.
    pub closed spec fn view(&self) -> Map<ClassHash, ContractCode> {
        code_map(self.defs@)
    }

    /// A table without definitions.
    pub fn new() -> (t: Self)
        ensures
            t.wf(),
            t@ == Map::<ClassHash, ContractCode>::empty(),
    {
        let t = ContractCodeTable { defs: Vec::new() };
        assert(t@ =~= Map::<ClassHash, ContractCode>::empty());
        t
    }

    /// Whether a definition with the hash `h` is stored.
    pub fn contains(&self, h: ClassHash) -> (b: bool)
        requires
            self.wf(),
        ensures
            b == self@.dom().contains(h),
    {
        let mut i: usize = 0;
        while i < self.defs.len()
            invariant
                i <= self.defs.len(),
                forall|k: int| 0 <= k < i ==> (#[trigger] self.defs@[k]).hash != h,
            decreases self.defs.len() - i,
        {
            if self.defs[i].hash == h {
                assert(has_hash(self.defs@, h));
                return true;
            }
            i = i + 1;
        }
        assert(!has_hash(self.defs@, h));
        false
    }

    /// Stores `def` under its hash. A definition that is stored under that
    /// hash already stays, and the table does not change.
    pub fn insert_compressed(&mut self, def: ContractDefinition)
        requires
            old(self).wf(),
        ensures
            final(self).wf(),
            final(self)@ == with_contract(old(self)@, def.hash, def.code()),
    {
        if !self.contains(def.hash) {
            proof {
                lemma_code_map_push(self.defs@, def);
            }
            self.defs.push(def);
        }
    }

    /// For each hash of `hashes`, in order, whether a definition is stored
    /// under it.
    pub fn which_exist(&self, hashes: &Vec<ClassHash>) -> (found: Vec<bool>)
        requires
            self.wf(),
        ensures
            found@ == existence(self@, hashes@),
    {
        let mut found: Vec<bool> = Vec::new();
        let mut i: usize = 0;
        while i < hashes.len()
            invariant
                i <= hashes.len(),
                self.wf(),
                found@ == existence(self@, hashes@.take(i as int)),
            decreases hashes.len() - i,
        {
            let b = self.contains(hashes[i]);
            found.push(b);
            assert(found@ =~= existence(self@, hashes@.take(i + 1)));
            i = i + 1;
        }
        assert(hashes@.take(i as int) =~= hashes@);
        found
    }
}

/// For each hash of `hashes`, whether `m` holds it.
pub open spec fn existence(m: Map<ClassHash, ContractCode>, hashes: Seq<ClassHash>) -> Seq<bool> {
    Seq::new(hashes.len(), |i: int| m.dom().contains(hashes[i]))
}

} // verus!
