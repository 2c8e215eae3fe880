use vstd::prelude::*;
use crate::arch::{ChainArch, LookupKey};
use crate::error::GadgetError;
use crate::instruction::Instruction;

verus! {

/// The graph that the backward search walks: the instructions of one binary
/// under one policy, whether conditional instructions take part, and the
/// length bound on chains.
pub struct SearchModel<C> {
    pub config: C,
    pub insns: Seq<Instruction>,
    pub conditional: bool,
    pub num: nat,
}

impl<C: ChainArch> SearchModel<C> {
    /// Instruction `a` may precede others in a chain.
    pub open spec fn admitted(self, a: usize) -> bool {
        self.conditional || self.config.conditional_of(self.insns[a as int]) == Ok::<bool, GadgetError>(false)
    }

    /// Key `k` is among the successors of an admitted instruction `a`.
    pub open spec fn successor(self, a: usize, k: LookupKey) -> bool {
        &&& a < self.insns.len()
        &&& self.admitted(a)
        &&& match self.config.next_of(self.insns[a as int]) {
            Ok(ks) => ks.contains(k),
            Err(_) => false,
        }
    }

    /// Control may flow from instruction `a` into instruction `b`.
    pub open spec fn link(self, a: usize, b: usize) -> bool {
        &&& b < self.insns.len()
        &&& match self.config.key_of(self.insns[b as int]) {
            Ok(k) => self.successor(a, k),
            Err(_) => false,
        }
    }

    pub open spec fn has_pred(self, b: usize) -> bool {
        exists|a: usize| #[trigger] self.link(a, b)
    }

    /// A non-empty sequence of positions, each flowing into the next.
    pub open spec fn is_path(self, s: Seq<usize>) -> bool {
        &&& s.len() >= 1
        &&& forall|i: int| 0 <= i < s.len() ==> #[trigger] s[i] < self.insns.len()
        &&& forall|i: int| 0 <= i < s.len() - 1 ==> #[trigger] self.link(s[i], s[i + 1])
    }

    /// Prepending `p` to `s` yields nothing: too long, or `p` has no predecessor.
    pub open spec fn dead_end(self, s: Seq<usize>, p: usize) -> bool {
        s.len() + 1 >= self.num || !self.has_pred(p)
    }

    /// `s` is one of the chains that the backward expansion of `chain`
    /// reports: a path that ends with `chain`, shorter than the bound, whose
    /// head has predecessors, none of which can be prepended further.
    pub open spec fn emitted(self, chain: Seq<usize>, s: Seq<usize>) -> bool {
        &&& chain.len() <= s.len() < self.num
        &&& s.subrange(s.len() - chain.len(), s.len() as int) == chain
        &&& self.is_path(s)
        &&& self.has_pred(s[0])
        &&& forall|p: usize| #[trigger] self.link(p, s[0]) ==> self.dead_end(s, p)
    }
}

/// Some element of `r` has the view `s`.
pub open spec fn holds_chain(r: Seq<Vec<usize>>, s: Seq<usize>) -> bool {
    exists|i: int| 0 <= i < r.len() && #[trigger] r[i]@ == s
}

} // verus!
