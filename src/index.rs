use std::collections::HashMap;
use vstd::prelude::*;
use crate::arch::LookupKey;
use crate::instruction::Mode;

verus! {

broadcast use vstd::std_specs::hash::group_hash_axioms;

/// Backward index of one binary: for every key, the positions of the
/// instructions that list that key among their successors. Each key space
/// (ARM, Thumb, x86-64, AArch64, PowerPC) has its own table keyed by address.
pub struct AddressIndex {
    arm: HashMap<u64, Vec<usize>>,
    thumb: HashMap<u64, Vec<usize>>,
    x64: HashMap<u64, Vec<usize>>,
    aarch64: HashMap<u64, Vec<usize>>,
    ppc: HashMap<u64, Vec<usize>>,
}

pub open spec fn key_address(k: LookupKey) -> u64 {
    match k {
        LookupKey::Arm((_, a)) => a,
        LookupKey::X64(a) => a,
        LookupKey::Aarch64(a) => a,
        LookupKey::PowerPc(a) => a,
    }
}

/// Inserting `j` at the end of the bucket of `a`, creating it if needed.
pub open spec fn bucket_pushed(
    old_m: Map<u64, Vec<usize>>,
    new_m: Map<u64, Vec<usize>>,
    a: u64,
    j: usize,
) -> bool {
    &&& new_m.dom() == old_m.dom().insert(a)
    &&& new_m[a]@ == (if old_m.contains_key(a) { old_m[a]@ } else { Seq::<usize>::empty() }).push(j)
    &&& forall|b: u64| b != a && #[trigger] old_m.contains_key(b) ==> new_m[b] == old_m[b]
}

fn push_bucket(m: &mut HashMap<u64, Vec<usize>>, a: u64, j: usize)
    ensures
        bucket_pushed(old(m)@, final(m)@, a, j),
{
    let mut b = match m.remove(&a) {
        Some(v) => v,
        None => Vec::new(),
    };
    b.push(j);
    m.insert(a, b);
    assert(m@.dom() =~= old(m)@.dom().insert(a));
}

fn bucket_of(m: &HashMap<u64, Vec<usize>>, a: u64) -> (r: Option<&Vec<usize>>)
    ensures
        match r {
            Some(v) => m@.contains_key(a) && *v == m@[a],
            None => !m@.contains_key(a),
        },
{
    m.get(&a)
}

impl AddressIndex {
    pub closed spec fn table(&self, k: LookupKey) -> Map<u64, Vec<usize>> {
        match k {
            LookupKey::Arm((Mode::Arm, _)) => self.arm@,
            LookupKey::Arm((Mode::Thumb, _)) => self.thumb@,
            LookupKey::X64(_) => self.x64@,
            LookupKey::Aarch64(_) => self.aarch64@,
            LookupKey::PowerPc(_) => self.ppc@,
        }
    }

    /// The positions recorded under `k`, empty when `k` is absent.
    pub closed spec fn bucket(&self, k: LookupKey) -> Seq<usize> {
        if self.table(k).contains_key(key_address(k)) {
            self.table(k)[key_address(k)]@
        } else {
            Seq::empty()
        }
    }

    /// Every recorded key has at least one position.
    pub closed spec fn wf(&self) -> bool {
        forall|k: LookupKey| #[trigger] self.table(k).contains_key(key_address(k))
            ==> self.table(k)[key_address(k)]@.len() > 0
    }

    pub fn new() -> (r: AddressIndex)
        ensures
            r.wf(),
            forall|k: LookupKey| #[trigger] r.bucket(k) == Seq::<usize>::empty(),
    {
        AddressIndex {
            arm: HashMap::new(),
            thumb: HashMap::new(),
            x64: HashMap::new(),
            aarch64: HashMap::new(),
            ppc: HashMap::new(),
        }
    }

    /// Records position `j` under key `k`.
    pub fn push(&mut self, k: LookupKey, j: usize)
        requires
            old(self).wf(),
        ensures
            final(self).wf(),
            final(self).bucket(k) == old(self).bucket(k).push(j),
            forall|k2: LookupKey| k2 != k ==> #[trigger] final(self).bucket(k2) == old(self).bucket(k2),
    {
        match k {
            LookupKey::Arm((Mode::Arm, a)) => push_bucket(&mut self.arm, a, j),
            LookupKey::Arm((Mode::Thumb, a)) => push_bucket(&mut self.thumb, a, j),
            LookupKey::X64(a) => push_bucket(&mut self.x64, a, j),
            LookupKey::Aarch64(a) => push_bucket(&mut self.aarch64, a, j),
            LookupKey::PowerPc(a) => push_bucket(&mut self.ppc, a, j),
        }
        assert forall|k2: LookupKey| #[trigger] self.table(k2).contains_key(key_address(k2))
            implies self.table(k2)[key_address(k2)]@.len() > 0 by {
            if old(self).table(k2).contains_key(key_address(k2)) {
                assert(old(self).table(k2)[key_address(k2)]@.len() > 0);
            }
        }
        assert forall|k2: LookupKey| k2 != k implies #[trigger] self.bucket(k2) == old(self).bucket(k2) by {
            if old(self).table(k2).contains_key(key_address(k2)) {
            }
        }
    }

    /// The positions recorded under `k`, or `None` when there are none.
    pub fn get(&self, k: &LookupKey) -> (r: Option<&Vec<usize>>)
        requires
            self.wf(),
        ensures
            match r {
                Some(v) => v@ == self.bucket(*k) && v@.len() > 0,
                None => self.bucket(*k).len() == 0,
            },
    {
        match k {
            LookupKey::Arm((Mode::Arm, a)) => bucket_of(&self.arm, *a),
            LookupKey::Arm((Mode::Thumb, a)) => bucket_of(&self.thumb, *a),
            LookupKey::X64(a) => bucket_of(&self.x64, *a),
            LookupKey::Aarch64(a) => bucket_of(&self.aarch64, *a),
            LookupKey::PowerPc(a) => bucket_of(&self.ppc, *a),
        }
    }
}

} // verus!
