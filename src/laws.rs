use vstd::prelude::*;
use crate::arch::{ChainArch, LookupKey};
use crate::chains::{gadget, index_records, leading_set, recorded_bucket, lemma_leading_set_bound, terminator, trim_flags, trimmed};
use crate::error::GadgetError;
use crate::index::AddressIndex;
use crate::search::SearchModel;

verus! {

/// Every gadget is longer than one instruction and shorter than the bound;
/// it ends with a terminator; each instruction flows into the next, that is
/// the key of the next is among the successors of the one before; without
/// conditional instructions none of its instructions is conditional; and
/// its first instruction is not one that trimming drops.
pub proof fn lemma_gadget_shape<C: ChainArch>(m: SearchModel<C>, rop: bool, jop: bool, hits: Seq<bool>, w: Seq<usize>)
    requires
        gadget(m, rop, jop, hits, w),
    ensures
        1 < w.len() <= m.num,
        terminator(m, rop, jop, hits, w[w.len() - 1]),
        forall|i: int| 0 <= i < w.len() - 1 ==> {
            &&& w[i] < m.insns.len()
            &&& m.admitted(w[i])
            &&& #[trigger] m.config.next_of(m.insns[w[i] as int]) matches Ok(ks)
            &&& m.config.key_of(m.insns[w[i + 1] as int]) matches Ok(k)
            &&& ks.contains(k)
        },
        !m.conditional ==> forall|i: int| 0 <= i < w.len()
            ==> m.config.conditional_of(m.insns[#[trigger] w[i] as int]) == Ok::<bool, GadgetError>(false),
        m.config.trim_of(m.insns[w[0] as int]) != Ok::<bool, GadgetError>(true),
{
    let (t, s) = choose|t: usize, s: Seq<usize>| #[trigger] m.emitted(seq![t], s) && terminator(m, rop, jop, hits, t)
        && w == trimmed(m.config, m.insns, s) && w.len() > 1;
    let flags = trim_flags(m.config, m.insns, s);
    let k = leading_set(flags);
    lemma_leading_set_bound(flags);
    assert(w.len() == s.len() - k);
    assert(s.subrange(s.len() - 1, s.len() as int) == seq![t]);
    assert(s[s.len() - 1] == seq![t][0]);
    assert(w[w.len() - 1] == s[s.len() - 1]);
    assert forall|i: int| 0 <= i < w.len() - 1 implies {
        &&& w[i] < m.insns.len()
        &&& m.admitted(w[i])
        &&& #[trigger] m.config.next_of(m.insns[w[i] as int]) matches Ok(ks)
        &&& m.config.key_of(m.insns[w[i + 1] as int]) matches Ok(k)
        &&& ks.contains(k)
    } by {
        assert(w[i] == s[k + i] && w[i + 1] == s[k + i + 1]);
        assert(m.link(s[k + i], s[k + i + 1]));
    }
    if !m.conditional {
        assert forall|i: int| 0 <= i < w.len()
            implies m.config.conditional_of(m.insns[#[trigger] w[i] as int]) == Ok::<bool, GadgetError>(false) by {
            assert(w[i] == s[k + i]);
            if i < w.len() - 1 {
                assert(m.link(s[k + i], s[k + i + 1]));
            }
        }
    }
    assert(w[0] == s[k as int]);
    assert(!flags[k as int]);
}

/// Trimming a chain that is already trimmed leaves it unchanged.
pub proof fn lemma_trim_idempotent<C: ChainArch>(config: C, insns: Seq<crate::instruction::Instruction>, s: Seq<usize>)
    ensures
        trimmed(config, insns, trimmed(config, insns, s)) == trimmed(config, insns, s),
{
    let flags = trim_flags(config, insns, s);
    let k = leading_set(flags);
    lemma_leading_set_bound(flags);
    let t = trimmed(config, insns, s);
    let tflags = trim_flags(config, insns, t);
    if t.len() > 0 {
        assert(t[0] == s[k as int]);
        assert(!tflags[0]);
    }
    assert(leading_set(tflags) == 0);
    assert(t.subrange(0, t.len() as int) =~= t);
}

/// Two indexes that both record the predecessors of the same search hold
/// the same buckets: each admitted instruction once for every time a key is
/// among its successors, in the order of the instructions.
pub proof fn lemma_index_deterministic<C: ChainArch>(m: SearchModel<C>, a: AddressIndex, b: AddressIndex)
    requires
        index_records(a, m),
        index_records(b, m),
    ensures
        forall|k: LookupKey| #[trigger] a.bucket(k) == b.bucket(k),
{
    assert forall|k: LookupKey| #[trigger] a.bucket(k) == b.bucket(k) by {
        assert(a.bucket(k) == recorded_bucket(m, k, m.insns.len()));
        assert(b.bucket(k) == recorded_bucket(m, k, m.insns.len()));
    }
}

/// With chains bounded to one instruction there is no gadget.
pub proof fn lemma_single_bound<C: ChainArch>(m: SearchModel<C>, rop: bool, jop: bool, hits: Seq<bool>, w: Seq<usize>)
    requires
        m.num == 1,
    ensures
        !gadget(m, rop, jop, hits, w),
{
}

/// A terminator that no instruction flows into yields no chain.
pub proof fn lemma_isolated_terminator<C: ChainArch>(m: SearchModel<C>, t: usize, s: Seq<usize>)
    requires
        !m.has_pred(t),
    ensures
        !m.emitted(seq![t], s),
{
    if m.emitted(seq![t], s) {
        assert(s.subrange(s.len() - 1, s.len() as int) == seq![t]);
        assert(s[s.len() - 1] == seq![t][0]);
        if s.len() == 1 {
            assert(s[0] == t);
        } else {
            assert(m.link(s[s.len() - 2], s[(s.len() - 2) + 1]));
        }
    }
}

} // verus!
