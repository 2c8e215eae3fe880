use std::collections::HashMap;
use vstd::prelude::*;
use crate::arch::{ChainArch, LookupKey};
use crate::error::GadgetError;
use crate::index::AddressIndex;
use crate::chain::Chain;
use crate::instruction::Instruction;
use crate::pattern::{compile, instruction_text, pattern_compiles, pattern_match, text_matches, text_of};
use crate::args::Args;
use crate::search::{SearchModel, holds_chain};

verus! {

/// The index holds, under each key, exactly the admitted instructions that
/// list that key among their successors.
pub open spec fn indexes<C: ChainArch>(index: AddressIndex, m: SearchModel<C>) -> bool {
    forall|k: LookupKey, j: usize| #[trigger] index.bucket(k).contains(j) <==> m.successor(j, k)
}

/// `keys[j]` is the key of instruction `j`.
pub open spec fn keys_of<C: ChainArch>(keys: Seq<LookupKey>, m: SearchModel<C>) -> bool {
    &&& keys.len() == m.insns.len()
    &&& forall|j: int| 0 <= j < keys.len() ==> m.config.key_of(#[trigger] m.insns[j]) == Ok::<LookupKey, GadgetError>(keys[j])
}

proof fn lemma_holds_append(a: Seq<Vec<usize>>, b: Seq<Vec<usize>>, s: Seq<usize>)
    ensures
        holds_chain(a + b, s) <==> (holds_chain(a, s) || holds_chain(b, s)),
{
    if holds_chain(a + b, s) {
        let i = choose|i: int| 0 <= i < (a + b).len() && #[trigger] (a + b)[i]@ == s;
        if i >= a.len() {
            assert(b[i - a.len()]@ == s);
        } else {
            assert(a[i]@ == s);
        }
    }
    if holds_chain(a, s) {
        let i = choose|i: int| 0 <= i < a.len() && #[trigger] a[i]@ == s;
        assert((a + b)[i]@ == s);
    }
    if holds_chain(b, s) {
        let i = choose|i: int| 0 <= i < b.len() && #[trigger] b[i]@ == s;
        assert((a + b)[a.len() + i]@ == s);
    }
}

/// A chain reported for `chain` that is longer than it is reported for the
/// chain one instruction longer, whose new head flows into `chain`.
proof fn lemma_emitted_longer<C: ChainArch>(m: SearchModel<C>, chain: Seq<usize>, s: Seq<usize>)
    requires
        chain.len() >= 1,
        m.emitted(chain, s),
        s.len() > chain.len(),
    ensures
        m.emitted(seq![s[s.len() - chain.len() - 1]] + chain, s),
        m.link(s[s.len() - chain.len() - 1], chain[0]),
{
    let i = s.len() - chain.len() - 1;
    let p = s[i];
    assert(s.subrange(i, s.len() as int) =~= seq![p] + chain) by {
        assert forall|j: int| 0 <= j < s.len() - i implies s.subrange(i, s.len() as int)[j] == (seq![p] + chain)[j] by {
            if j > 0 {
                assert(s[i + j] == s.subrange(s.len() - chain.len(), s.len() as int)[j - 1]);
            }
        }
    }
    assert(s[i + 1] == s.subrange(s.len() - chain.len(), s.len() as int)[0]);
    assert(m.link(s[i], s[i + 1]));
}

/// A chain reported for `[p] ++ chain` is reported for `chain`.
proof fn lemma_emitted_shorter<C: ChainArch>(m: SearchModel<C>, chain: Seq<usize>, p: usize, s: Seq<usize>)
    requires
        chain.len() >= 1,
        m.emitted(seq![p] + chain, s),
    ensures
        m.emitted(chain, s),
        s.len() > chain.len(),
        s[s.len() - chain.len() - 1] == p,
{
    let c2 = seq![p] + chain;
    let i = s.len() - c2.len();
    assert(s.subrange(i, s.len() as int) == c2);
    assert(s[i] == c2[0]);
    assert(s.subrange(s.len() - chain.len(), s.len() as int) =~= chain) by {
        assert forall|j: int| 0 <= j < chain.len() implies s.subrange(s.len() - chain.len(), s.len() as int)[j] == chain[j] by {
            assert(s[s.len() - chain.len() + j] == s.subrange(i, s.len() as int)[j + 1]);
            assert(c2[j + 1] == chain[j]);
        }
    }
}

/// Prepending a predecessor of its head keeps a path a path.
proof fn lemma_prepend_path<C: ChainArch>(m: SearchModel<C>, p: usize, c: Seq<usize>)
    requires
        m.is_path(c),
        m.link(p, c[0]),
        p < m.insns.len(),
    ensures
        m.is_path(seq![p] + c),
{
    let c2 = seq![p] + c;
    assert(c2[0] == p && c2[1] == c[0]);
    assert forall|i: int| 0 <= i < c2.len() - 1 implies #[trigger] m.link(c2[i], c2[i + 1]) by {
        if i > 0 {
            assert(c2[i] == c[i - 1] && c2[i + 1] == c[i]);
            assert(m.link(c[i - 1], c[(i - 1) + 1]));
        }
    }
    assert forall|i: int| 0 <= i < c2.len() implies #[trigger] c2[i] < m.insns.len() by {
        if i > 0 {
            assert(c2[i] == c[i - 1]);
        }
    }
}

/// A path that can still grow has at least one reported extension.
proof fn lemma_some_emitted<C: ChainArch>(m: SearchModel<C>, c: Seq<usize>)
    requires
        m.is_path(c),
        c.len() < m.num,
        m.has_pred(c[0]),
    ensures
        exists|s: Seq<usize>| m.emitted(c, s),
    decreases m.num - c.len(),
{
    if forall|p: usize| #[trigger] m.link(p, c[0]) ==> m.dead_end(c, p) {
        assert(c.subrange(0, c.len() as int) =~= c);
        assert(m.emitted(c, c));
    } else {
        let p = choose|p: usize| #[trigger] m.link(p, c[0]) && !m.dead_end(c, p);
        let c2 = seq![p] + c;
        lemma_prepend_path(m, p, c);
        lemma_some_emitted(m, c2);
        let s = choose|s: Seq<usize>| m.emitted(c2, s);
        lemma_emitted_shorter(m, c, p, s);
    }
}

fn prepend(p: usize, chain: &Vec<usize>) -> (r: Vec<usize>)
    ensures
        r@ == seq![p] + chain@,
{
    let mut r: Vec<usize> = Vec::new();
    r.push(p);
    let mut i: usize = 0;
    while i < chain.len()
        invariant
            i <= chain@.len(),
            r@ == seq![p] + chain@.subrange(0, i as int),
        decreases chain@.len() - i,
    {
        r.push(chain[i]);
        i = i + 1;
        assert(r@ =~= seq![p] + chain@.subrange(0, i as int));
    }
    assert(chain@.subrange(0, i as int) =~= chain@);
    r
}

/// Grows `chain` backwards through the index, one predecessor at a time,
/// and returns every chain reported for it.
fn extend_chain<C: ChainArch>(
    num: usize,
    index: &AddressIndex,
    keys: &Vec<LookupKey>,
    chain: Vec<usize>,
    Ghost(m): Ghost<SearchModel<C>>,
) -> (r: Vec<Vec<usize>>)
    requires
        index.wf(),
        indexes(*index, m),
        keys_of(keys@, m),
        m.num == num,
        m.is_path(chain@),
        chain@.len() <= num,
    ensures
        forall|s: Seq<usize>| holds_chain(r@, s) <==> m.emitted(chain@, s),
    decreases num - chain@.len(),
{
    if chain.len() >= num {
        return Vec::new();
    }
    let head = chain[0];
    let key = keys[head];
    assert(m.config.key_of(m.insns[head as int]) == Ok::<LookupKey, GadgetError>(key));
    match index.get(&key) {
        None => {
            assert forall|s: Seq<usize>| !m.emitted(chain@, s) by {
                if m.emitted(chain@, s) {
                    let a = if s.len() > chain@.len() {
                        lemma_emitted_longer(m, chain@, s);
                        s[s.len() - chain@.len() - 1]
                    } else {
                        assert(s =~= chain@) by {
                            assert(s.subrange(0, s.len() as int) =~= s);
                        }
                        choose|a: usize| #[trigger] m.link(a, s[0])
                    };
                    assert(m.link(a, head));
                    assert(index.bucket(key).contains(a));
                }
            }
            Vec::new()
        },
        Some(preds) => {
            let mut results: Vec<Vec<usize>> = Vec::new();
            let mut i: usize = 0;
            while i < preds.len()
                invariant
                    index.wf(),
                    indexes(*index, m),
                    keys_of(keys@, m),
                    m.num == num,
                    m.is_path(chain@),
                    chain@.len() < num,
                    head == chain@[0],
                    preds@ == index.bucket(key),
                    keys@[head as int] == key,
                    i <= preds@.len(),
                    forall|s: Seq<usize>| holds_chain(results@, s) <==> exists|ii: int|
                        0 <= ii < i && #[trigger] m.emitted(seq![preds@[ii]] + chain@, s),
                decreases preds@.len() - i,
            {
                let p = preds[i];
                assert(index.bucket(key).contains(p));
                assert(m.link(p, head));
                let nc = prepend(p, &chain);
                proof { lemma_prepend_path(m, p, chain@); }
                let mut sub = extend_chain::<C>(num, index, keys, nc, Ghost(m));
                let ghost before = results@;
                let ghost sub_view = sub@;
                results.append(&mut sub);
                assert forall|s: Seq<usize>| holds_chain(results@, s) <==> exists|ii: int|
                    0 <= ii < i + 1 && #[trigger] m.emitted(seq![preds@[ii]] + chain@, s) by {
                    lemma_holds_append(before, sub_view, s);
                }
                i = i + 1;
            }
            if results.len() == 0 {
                proof {
                    assert(chain@.subrange(0, chain@.len() as int) =~= chain@);
                    assert(index.bucket(key).contains(preds@[0]));
                    assert(m.link(preds@[0], head));
                    assert forall|p: usize| #[trigger] m.link(p, chain@[0]) implies m.dead_end(chain@, p) by {
                        if !m.dead_end(chain@, p) {
                            assert(index.bucket(key).contains(p));
                            let ii = choose|ii: int| 0 <= ii < preds@.len() && preds@[ii] == p;
                            let c2 = seq![p] + chain@;
                            lemma_prepend_path(m, p, chain@);
                            lemma_some_emitted(m, c2);
                            let s = choose|s: Seq<usize>| m.emitted(c2, s);
                            assert(m.emitted(seq![preds@[ii]] + chain@, s));
                            assert(holds_chain(results@, s));
                        }
                    }
                    assert(m.emitted(chain@, chain@));
                    assert forall|s: Seq<usize>| holds_chain(seq![chain], s) <==> m.emitted(chain@, s) by {
                        if holds_chain(seq![chain], s) {
                            assert(seq![chain][0]@ == s);
                        }
                        if s == chain@ {
                            assert(seq![chain][0]@ == s);
                        }
                        if m.emitted(chain@, s) && s != chain@ {
                            if s.len() == chain@.len() {
                                assert(s.subrange(0, s.len() as int) =~= s);
                            }
                            lemma_emitted_longer(m, chain@, s);
                            let p = s[s.len() - chain@.len() - 1];
                            assert(index.bucket(key).contains(p));
                            let ii = choose|ii: int| 0 <= ii < preds@.len() && preds@[ii] == p;
                            assert(m.emitted(seq![preds@[ii]] + chain@, s));
                            assert(holds_chain(results@, s));
                        }
                    }
                }
                let mut r: Vec<Vec<usize>> = Vec::new();
                r.push(chain);
                assert(r@ =~= seq![chain]);
                r
            } else {
                proof {
                    assert forall|s: Seq<usize>| holds_chain(results@, s) <==> m.emitted(chain@, s) by {
                        if holds_chain(results@, s) {
                            let ii = choose|ii: int| 0 <= ii < i && #[trigger] m.emitted(seq![preds@[ii]] + chain@, s);
                            lemma_emitted_shorter(m, chain@, preds@[ii], s);
                        }
                        if m.emitted(chain@, s) {
                            if s.len() > chain@.len() {
                                lemma_emitted_longer(m, chain@, s);
                                let p = s[s.len() - chain@.len() - 1];
                                assert(index.bucket(key).contains(p));
                                let ii = choose|ii: int| 0 <= ii < preds@.len() && preds@[ii] == p;
                                assert(m.emitted(seq![preds@[ii]] + chain@, s));
                            } else {
                                let x = results@[0]@;
                                assert(holds_chain(results@, x));
                                let ii = choose|ii: int| 0 <= ii < i && #[trigger] m.emitted(seq![preds@[ii]] + chain@, x);
                                let p = preds@[ii];
                                lemma_emitted_shorter(m, chain@, p, x);
                                lemma_emitted_longer(m, chain@, x);
                                let c2 = seq![p] + chain@;
                                if x.len() > c2.len() {
                                    lemma_emitted_longer(m, c2, x);
                                    assert(m.has_pred(p));
                                } else {
                                    assert(x.subrange(0, x.len() as int) =~= x);
                                    assert(x[0] == p);
                                }
                                assert(!m.dead_end(chain@, p));
                                assert(s.subrange(0, s.len() as int) =~= s);
                                assert(s =~= chain@);
                            }
                        }
                    }
                }
                results
            }
        },
    }
}


/// The model of a run: the policy, the instructions, and the run's options.
pub open spec fn model_of<C: ChainArch>(args: Args, config: C, insns: Seq<Instruction>) -> SearchModel<C> {
    SearchModel { config, insns, conditional: args.conditional, num: args.num as nat }
}

proof fn lemma_push_contains<T>(a: Seq<T>, x: T, y: T)
    ensures
        a.push(x).contains(y) <==> (a.contains(y) || x == y),
{
    if a.contains(y) {
        let i = choose|i: int| 0 <= i < a.len() && a[i] == y;
        assert(a.push(x)[i] == y);
    }
    if x == y {
        assert(a.push(x)[a.len() as int] == y);
    }
    if a.push(x).contains(y) {
        let i = choose|i: int| 0 <= i < a.push(x).len() && a.push(x)[i] == y;
        if i < a.len() {
            assert(a[i] == y);
        }
    }
}

/// Number of times `k` occurs in `ks`.
pub open spec fn occurrences(ks: Seq<LookupKey>, k: LookupKey) -> nat
    decreases ks.len(),
{
    if ks.len() == 0 {
        0
    } else {
        occurrences(ks.drop_last(), k) + if ks.last() == k { 1nat } else { 0nat }
    }
}

/// The bucket of `k` after the first `n` instructions are indexed: each
/// admitted instruction once for every time `k` is among its successors.
pub open spec fn recorded_bucket<C: ChainArch>(m: SearchModel<C>, k: LookupKey, n: nat) -> Seq<usize>
    decreases n,
{
    if n == 0 {
        Seq::empty()
    } else {
        let j = (n - 1) as usize;
        let prev = recorded_bucket(m, k, (n - 1) as nat);
        if m.admitted(j) {
            match m.config.next_of(m.insns[j as int]) {
                Ok(ks) => prev + Seq::new(occurrences(ks, k), |_x: int| j),
                Err(_) => prev,
            }
        } else {
            prev
        }
    }
}

/// The index holds exactly the buckets of the whole search.
pub open spec fn index_records<C: ChainArch>(index: AddressIndex, m: SearchModel<C>) -> bool {
    forall|k: LookupKey| #[trigger] index.bucket(k) == recorded_bucket(m, k, m.insns.len())
}

/// Indexing instruction `j` asks a question that has no answer.
pub open spec fn index_fails<C: ChainArch>(m: SearchModel<C>, j: usize) -> bool {
    ||| !m.conditional && m.config.conditional_of(m.insns[j as int]) is Err
    ||| m.admitted(j) && m.config.next_of(m.insns[j as int]) is Err
}

/// Builds the backward index: every admitted instruction is recorded under
/// each of its successor keys.
fn get_lookup<C: ChainArch>(args: &Args, config: &C, insns: &Vec<Instruction>) -> (r: Result<AddressIndex, GadgetError>)
    ensures
        r is Err <==> exists|j: usize| j < insns@.len() && #[trigger] index_fails(model_of(*args, *config, insns@), j),
        r matches Ok(index) ==> index.wf() && indexes(index, model_of(*args, *config, insns@))
            && index_records(index, model_of(*args, *config, insns@)),
{
    let ghost m = model_of(*args, *config, insns@);
    let mut index = AddressIndex::new();
    let mut i: usize = 0;
    while i < insns.len()
        invariant
            m == model_of(*args, *config, insns@),
            i <= insns@.len(),
            index.wf(),
            forall|k: LookupKey, j: usize| #[trigger] index.bucket(k).contains(j) <==> (j < i && m.successor(j, k)),
            forall|k: LookupKey| #[trigger] index.bucket(k) == recorded_bucket(m, k, i as nat),
            forall|j: usize| j < i ==> !#[trigger] index_fails(m, j),
        decreases insns@.len() - i,
    {
        let allowed = if args.conditional {
            true
        } else {
            match config.is_conditional(&insns[i]) {
                Ok(c) => !c,
                Err(e) => {
                    assert(index_fails(m, i));
                    return Err(e);
                },
            }
        };
        assert(allowed == m.admitted(i));
        if allowed {
            let next = match config.next_insns(&insns[i]) {
                Ok(n) => n,
                Err(e) => {
                    assert(index_fails(m, i));
                    return Err(e);
                },
            };
            let mut q: usize = 0;
            while q < next.len()
                invariant
                    m == model_of(*args, *config, insns@),
                    i < insns@.len(),
                    m.admitted(i),
                    config.next_of(insns@[i as int]) == Ok::<Seq<LookupKey>, GadgetError>(next@),
                    q <= next@.len(),
                    index.wf(),
                    forall|k: LookupKey, j: usize| #[trigger] index.bucket(k).contains(j) <==> ((j < i && m.successor(j, k))
                        || (j == i && next@.subrange(0, q as int).contains(k))),
                    forall|k: LookupKey| #[trigger] index.bucket(k) == recorded_bucket(m, k, i as nat)
                        + Seq::new(occurrences(next@.subrange(0, q as int), k), |_x: int| i),
                decreases next@.len() - q,
            {
                let ghost before = index;
                index.push(next[q], i);
                assert forall|k: LookupKey, j: usize| #[trigger] index.bucket(k).contains(j) <==> ((j < i && m.successor(j, k))
                    || (j == i && next@.subrange(0, q + 1).contains(k))) by {
                    let a = next@.subrange(0, q as int);
                    let b = next@.subrange(0, q + 1);
                    assert(b =~= a.push(next@[q as int]));
                    lemma_push_contains(a, next@[q as int], k);
                    assert(before.bucket(k).contains(j) <==> ((j < i && m.successor(j, k)) || (j == i && a.contains(k))));
                    if k == next@[q as int] {
                        lemma_push_contains(before.bucket(k), i, j);
                    } else {
                        assert(index.bucket(k) == before.bucket(k));
                    }
                }
                assert forall|k: LookupKey| #[trigger] index.bucket(k) == recorded_bucket(m, k, i as nat)
                    + Seq::new(occurrences(next@.subrange(0, q + 1), k), |_x: int| i) by {
                    let a = next@.subrange(0, q as int);
                    let b = next@.subrange(0, q + 1);
                    assert(b.drop_last() =~= a);
                    assert(b.last() == next@[q as int]);
                    let r = recorded_bucket(m, k, i as nat);
                    assert(before.bucket(k) == r + Seq::new(occurrences(a, k), |_x: int| i));
                    if k == next@[q as int] {
                        assert(index.bucket(k) == before.bucket(k).push(i));
                        assert(r + Seq::new(occurrences(b, k), |_x: int| i)
                            =~= (r + Seq::new(occurrences(a, k), |_x: int| i)).push(i));
                    } else {
                        assert(index.bucket(k) == before.bucket(k));
                        assert(occurrences(b, k) == occurrences(a, k));
                    }
                }
                q = q + 1;
            }
            assert(next@.subrange(0, next@.len() as int) =~= next@);
            assert forall|k: LookupKey| #[trigger] index.bucket(k) == recorded_bucket(m, k, (i + 1) as nat) by {
                assert(recorded_bucket(m, k, (i + 1) as nat) == recorded_bucket(m, k, i as nat)
                    + Seq::new(occurrences(next@, k), |_x: int| i));
            }
        } else {
            assert forall|k: LookupKey| #[trigger] index.bucket(k) == recorded_bucket(m, k, (i + 1) as nat) by {
                assert(recorded_bucket(m, k, (i + 1) as nat) == recorded_bucket(m, k, i as nat));
            }
        }
        assert(!index_fails(m, i));
        i = i + 1;
    }
    Ok(index)
}

/// Every policy question has an answer for instruction `x`.
pub open spec fn answers<C: ChainArch>(config: C, x: Instruction) -> bool {
    &&& config.conditional_of(x) is Ok
    &&& config.rop_of(x) is Ok
    &&& config.jop_of(x) is Ok
    &&& config.next_of(x) is Ok
    &&& config.trim_of(x) is Ok
    &&& config.key_of(x) is Ok
}

/// Every policy question has an answer for every instruction.
pub open spec fn policy_total<C: ChainArch>(config: C, insns: Seq<Instruction>) -> bool {
    forall|j: int| 0 <= j < insns.len() ==> #[trigger] answers(config, insns[j])
}


/// Instruction `x` ends chains: it is admitted, and it is a return (when
/// returns are searched), an indirect branch (when those are searched), or
/// its text matched the end pattern (`hits[x]`).
pub open spec fn terminator<C: ChainArch>(m: SearchModel<C>, rop: bool, jop: bool, hits: Seq<bool>, x: usize) -> bool {
    &&& x < m.insns.len()
    &&& m.admitted(x)
    &&& {
        ||| rop && m.config.rop_of(m.insns[x as int]) == Ok::<bool, GadgetError>(true)
        ||| jop && m.config.jop_of(m.insns[x as int]) == Ok::<bool, GadgetError>(true)
        ||| hits[x as int]
    }
}

/// Testing instruction `j` as a terminator asks a question that has no answer.
pub open spec fn end_fails<C: ChainArch>(m: SearchModel<C>, rop: bool, jop: bool, j: usize) -> bool {
    let x = m.insns[j as int];
    ||| !m.conditional && m.config.conditional_of(x) is Err
    ||| m.admitted(j) && rop && m.config.rop_of(x) is Err
    ||| m.admitted(j) && jop && !(rop && m.config.rop_of(x) == Ok::<bool, GadgetError>(true)) && m.config.jop_of(x) is Err
}

/// The key of instruction `j` has no answer.
pub open spec fn key_fails<C: ChainArch>(m: SearchModel<C>, j: usize) -> bool {
    m.config.key_of(m.insns[j as int]) is Err
}

/// Some question the search asks about instruction `j` has no answer.
pub open spec fn fails_at<C: ChainArch>(m: SearchModel<C>, rop: bool, jop: bool, j: usize) -> bool {
    end_fails(m, rop, jop, j) || index_fails(m, j) || key_fails(m, j)
}

proof fn lemma_fails_not_total<C: ChainArch>(m: SearchModel<C>, rop: bool, jop: bool, j: usize)
    requires
        j < m.insns.len(),
        fails_at(m, rop, jop, j),
    ensures
        !policy_total(m.config, m.insns),
{
    assert(!answers(m.config, m.insns[j as int]));
}

proof fn lemma_trim_fails_not_total<C: ChainArch>(config: C, insns: Seq<Instruction>, s: Seq<usize>)
    requires
        trim_fails(config, insns, s),
        forall|i: int| 0 <= i < s.len() ==> #[trigger] s[i] < insns.len(),
    ensures
        !policy_total(config, insns),
{
    let i = choose|i: int| 0 <= i < s.len() && (forall|j: int| 0 <= j < i ==> #[trigger] trim_flags(config, insns, s)[j])
        && (#[trigger] config.trim_of(insns[s[i] as int])) is Err;
    assert(!answers(config, insns[s[i] as int]));
}

/// Some question the search asks has no answer.
pub open spec fn search_fails<C: ChainArch>(m: SearchModel<C>, rop: bool, jop: bool) -> bool {
    exists|j: usize| j < m.insns.len() && #[trigger] fails_at(m, rop, jop, j)
}

fn is_end<C: ChainArch>(args: &Args, config: &C, insns: &Vec<Instruction>, hits: &Vec<bool>, x: usize) -> (r: Result<bool, GadgetError>)
    requires
        x < insns@.len(),
        hits@.len() == insns@.len(),
    ensures
        r is Err <==> end_fails(model_of(*args, *config, insns@), args.rop, args.jop, x),
        r matches Ok(b) ==> b == terminator(model_of(*args, *config, insns@), args.rop, args.jop, hits@, x),
{
    let i = &insns[x];
    if !args.conditional {
        match config.is_conditional(i) {
            Ok(true) => {
                return Ok(false);
            },
            Ok(false) => {},
            Err(e) => {
                return Err(e);
            },
        }
    }
    if args.rop {
        match config.is_rop(i) {
            Ok(true) => {
                return Ok(true);
            },
            Ok(false) => {},
            Err(e) => {
                return Err(e);
            },
        }
    }
    if args.jop {
        match config.is_jop(i) {
            Ok(true) => {
                return Ok(true);
            },
            Ok(false) => {},
            Err(e) => {
                return Err(e);
            },
        }
    }
    Ok(hits[x])
}

/// Positions of all terminators, each once, in increasing order.
fn get_chain_ends<C: ChainArch>(args: &Args, config: &C, insns: &Vec<Instruction>, hits: &Vec<bool>) -> (r: Result<Vec<usize>, GadgetError>)
    requires
        hits@.len() == insns@.len(),
    ensures
        r is Err <==> exists|j: usize| j < insns@.len() && #[trigger] end_fails(model_of(*args, *config, insns@), args.rop, args.jop, j),
        r matches Ok(ends) ==> {
            &&& forall|t: usize| ends@.contains(t) <==> terminator(model_of(*args, *config, insns@), args.rop, args.jop, hits@, t)
            &&& forall|a: int, b: int| 0 <= a < b < ends@.len() ==> ends@[a] < ends@[b]
        },
{
    let ghost m = model_of(*args, *config, insns@);
    let mut ends: Vec<usize> = Vec::new();
    let mut i: usize = 0;
    while i < insns.len()
        invariant
            m == model_of(*args, *config, insns@),
            hits@.len() == insns@.len(),
            i <= insns@.len(),
            forall|t: usize| ends@.contains(t) <==> (t < i && terminator(m, args.rop, args.jop, hits@, t)),
            forall|a: int, b: int| 0 <= a < b < ends@.len() ==> ends@[a] < ends@[b],
            forall|a: int| 0 <= a < ends@.len() ==> ends@[a] < i,
            forall|j: usize| j < i ==> !#[trigger] end_fails(m, args.rop, args.jop, j),
        decreases insns@.len() - i,
    {
        let e = is_end(args, config, insns, hits, i)?;
        if e {
            let ghost before = ends@;
            ends.push(i);
            proof {
                assert forall|t: usize| ends@.contains(t) <==> (t < i + 1 && terminator(m, args.rop, args.jop, hits@, t)) by {
                    lemma_push_contains(before, i, t);
                }
            }
        }
        i = i + 1;
    }
    Ok(ends)
}

/// The key of every instruction.
fn get_keys<C: ChainArch>(config: &C, insns: &Vec<Instruction>) -> (r: Result<Vec<LookupKey>, GadgetError>)
    ensures
        r is Err <==> exists|j: usize| j < insns@.len() && (#[trigger] config.key_of(insns@[j as int])) is Err,
        r matches Ok(keys) ==> keys@.len() == insns@.len() && forall|j: int| 0 <= j < keys@.len()
            ==> config.key_of(#[trigger] insns@[j]) == Ok::<LookupKey, GadgetError>(keys@[j]),
{
    let mut keys: Vec<LookupKey> = Vec::new();
    let mut i: usize = 0;
    while i < insns.len()
        invariant
            i <= insns@.len(),
            keys@.len() == i,
            forall|j: int| 0 <= j < i ==> config.key_of(#[trigger] insns@[j]) == Ok::<LookupKey, GadgetError>(keys@[j]),
        decreases insns@.len() - i,
    {
        let k = match config.get_key(&insns[i]) {
            Ok(k) => k,
            Err(e) => {
                return Err(e);
            },
        };
        keys.push(k);
        i = i + 1;
    }
    Ok(keys)
}

/// Number of leading entries that are set.
pub open spec fn leading_set(flags: Seq<bool>) -> nat
    decreases flags.len(),
{
    if flags.len() == 0 || !flags[0] {
        0
    } else {
        1 + leading_set(flags.drop_first())
    }
}

/// Which instructions of `s` a chain head would drop.
pub open spec fn trim_flags<C: ChainArch>(config: C, insns: Seq<Instruction>, s: Seq<usize>) -> Seq<bool> {
    s.map_values(|j: usize| config.trim_of(insns[j as int]) == Ok::<bool, GadgetError>(true))
}

/// `s` without its leading instructions that the policy trims.
pub open spec fn trimmed<C: ChainArch>(config: C, insns: Seq<Instruction>, s: Seq<usize>) -> Seq<usize> {
    s.subrange(leading_set(trim_flags(config, insns, s)) as int, s.len() as int)
}

proof fn lemma_leading_set(flags: Seq<bool>, k: int)
    requires
        0 <= k <= flags.len(),
        forall|j: int| 0 <= j < k ==> flags[j],
        k == flags.len() || !flags[k],
    ensures
        leading_set(flags) == k,
    decreases k,
{
    if k > 0 {
        lemma_leading_set(flags.drop_first(), k - 1);
    }
}

pub(crate) proof fn lemma_leading_set_bound(flags: Seq<bool>)
    ensures
        leading_set(flags) <= flags.len(),
        leading_set(flags) < flags.len() ==> !flags[leading_set(flags) as int],
        forall|j: int| 0 <= j < leading_set(flags) ==> flags[j],
    decreases flags.len(),
{
    if flags.len() > 0 && flags[0] {
        lemma_leading_set_bound(flags.drop_first());
        assert forall|j: int| 0 <= j < leading_set(flags) implies flags[j] by {
            if j > 0 {
                assert(flags[j] == flags.drop_first()[j - 1]);
            }
        }
    }
}

/// Trimming `s` asks whether to drop an instruction and gets no answer:
/// every instruction before it is dropped.
pub open spec fn trim_fails<C: ChainArch>(config: C, insns: Seq<Instruction>, s: Seq<usize>) -> bool {
    exists|i: int| 0 <= i < s.len() && (forall|j: int| 0 <= j < i ==> #[trigger] trim_flags(config, insns, s)[j])
        && (#[trigger] config.trim_of(insns[s[i] as int])) is Err
}

/// Drops the leading instructions that the policy trims.
fn trim_chain<C: ChainArch>(config: &C, insns: &Vec<Instruction>, chain: &Vec<usize>) -> (r: Result<Vec<usize>, GadgetError>)
    requires
        forall|i: int| 0 <= i < chain@.len() ==> #[trigger] chain@[i] < insns@.len(),
    ensures
        r is Err <==> trim_fails(*config, insns@, chain@),
        r matches Ok(t) ==> t@ == trimmed(*config, insns@, chain@),
{
    let ghost flags = trim_flags(*config, insns@, chain@);
    let mut i: usize = 0;
    let mut stop = false;
    while i < chain.len() && !stop
        invariant
            flags == trim_flags(*config, insns@, chain@),
            forall|x: int| 0 <= x < chain@.len() ==> #[trigger] chain@[x] < insns@.len(),
            i <= chain@.len(),
            forall|j: int| 0 <= j < i ==> flags[j],
            stop ==> i < chain@.len() && config.trim_of(insns@[chain@[i as int] as int]) == Ok::<bool, GadgetError>(false),
        decreases chain@.len() - i + (if stop { 0int } else { 1int }),
    {
        let t = match config.should_trim(&insns[chain[i]]) {
            Ok(t) => t,
            Err(e) => {
                assert(trim_fails(*config, insns@, chain@)) by {
                    assert(forall|j: int| 0 <= j < i ==> #[trigger] trim_flags(*config, insns@, chain@)[j]);
                }
                return Err(e);
            },
        };
        if !t {
            stop = true;
        } else {
            i = i + 1;
        }
    }
    assert(!trim_fails(*config, insns@, chain@)) by {
        if trim_fails(*config, insns@, chain@) {
            let x = choose|x: int| 0 <= x < chain@.len() && (forall|j: int| 0 <= j < x ==> #[trigger] trim_flags(*config, insns@, chain@)[j])
                && (#[trigger] config.trim_of(insns@[chain@[x] as int])) is Err;
            if x < i {
                assert(flags[x]);
            } else if x > i {
                assert(flags[i as int]);
            }
        }
    }
    proof {
        lemma_leading_set(flags, i as int);
    }
    let mut r: Vec<usize> = Vec::new();
    let mut j: usize = i;
    while j < chain.len()
        invariant
            i <= j <= chain@.len(),
            r@ == chain@.subrange(i as int, j as int),
        decreases chain@.len() - j,
    {
        r.push(chain[j]);
        j = j + 1;
        assert(r@ =~= chain@.subrange(i as int, j as int));
    }
    Ok(r)
}

/// Address of the head of a chain of positions.
pub open spec fn head_address(insns: Seq<Instruction>, w: Seq<usize>) -> u64 {
    insns[w[0] as int].address
}

/// Some chain of `out` starts at address `a`.
pub open spec fn starts_at(insns: Seq<Instruction>, out: Seq<Vec<usize>>, a: u64) -> bool {
    exists|i: int| 0 <= i < out.len() && head_address(insns, out[i]@) == a
}

/// `w` is a reportable gadget: the trimmed form, longer than one
/// instruction, of a chain reported for some terminator.
pub open spec fn gadget<C: ChainArch>(m: SearchModel<C>, rop: bool, jop: bool, hits: Seq<bool>, w: Seq<usize>) -> bool {
    exists|t: usize, s: Seq<usize>| #[trigger] m.emitted(seq![t], s) && terminator(m, rop, jop, hits, t)
        && w == trimmed(m.config, m.insns, s) && w.len() > 1
}

proof fn lemma_gadget_in_range<C: ChainArch>(m: SearchModel<C>, rop: bool, jop: bool, hits: Seq<bool>, w: Seq<usize>)
    requires
        gadget(m, rop, jop, hits, w),
    ensures
        w.len() > 1,
        forall|i: int| 0 <= i < w.len() ==> #[trigger] w[i] < m.insns.len(),
{
    let (t, s) = choose|t: usize, s: Seq<usize>| #[trigger] m.emitted(seq![t], s) && terminator(m, rop, jop, hits, t)
        && w == trimmed(m.config, m.insns, s) && w.len() > 1;
    let k = leading_set(trim_flags(m.config, m.insns, s));
    lemma_leading_set_bound(trim_flags(m.config, m.insns, s));
    assert forall|i: int| 0 <= i < w.len() implies #[trigger] w[i] < m.insns.len() by {
        assert(w[i] == s[k + i]);
    }
}

/// Runs the search: every terminator is expanded backwards, every reported
/// chain is trimmed, and chains longer than one instruction are kept, one
/// per head address.
fn collect_chains<C: ChainArch>(args: &Args, config: &C, insns: &Vec<Instruction>, hits: &Vec<bool>) -> (r: Result<Vec<Vec<usize>>, GadgetError>)
    requires
        hits@.len() == insns@.len(),
        args.num >= 1,
    ensures
        match r {
            Ok(out) => {
                let m = model_of(*args, *config, insns@);
                &&& forall|i: int| 0 <= i < out@.len() ==> gadget(m, args.rop, args.jop, hits@, #[trigger] out@[i]@)
                &&& forall|i: int, j: int| 0 <= i < j < out@.len() ==> head_address(insns@, #[trigger] out@[i]@) != head_address(insns@, #[trigger] out@[j]@)
                &&& forall|t: usize, s: Seq<usize>| #[trigger] m.emitted(seq![t], s) && terminator(m, args.rop, args.jop, hits@, t)
                    && trimmed(*config, insns@, s).len() > 1
                    ==> starts_at(insns@, out@, head_address(insns@, trimmed(*config, insns@, s)))
            },
            Err(_) => !policy_total(*config, insns@),
        },
        search_fails(model_of(*args, *config, insns@), args.rop, args.jop) ==> r is Err,
{
    let ghost m = model_of(*args, *config, insns@);
    let ends = match get_chain_ends(args, config, insns, hits) {
        Ok(e) => e,
        Err(e) => {
            proof {
                let j = choose|j: usize| j < insns@.len() && #[trigger] end_fails(m, args.rop, args.jop, j);
                lemma_fails_not_total(m, args.rop, args.jop, j);
            }
            return Err(e);
        },
    };
    let index = match get_lookup(args, config, insns) {
        Ok(x) => x,
        Err(e) => {
            proof {
                let j = choose|j: usize| j < insns@.len() && #[trigger] index_fails(m, j);
                lemma_fails_not_total(m, args.rop, args.jop, j);
            }
            return Err(e);
        },
    };
    let keys = match get_keys(config, insns) {
        Ok(k) => k,
        Err(e) => {
            proof {
                let j = choose|j: usize| j < insns@.len() && (#[trigger] config.key_of(insns@[j as int])) is Err;
                assert(key_fails(m, j));
                lemma_fails_not_total(m, args.rop, args.jop, j);
            }
            return Err(e);
        },
    };
    assert(!search_fails(m, args.rop, args.jop)) by {
        if search_fails(m, args.rop, args.jop) {
            let j = choose|j: usize| j < m.insns.len() && #[trigger] fails_at(m, args.rop, args.jop, j);
            assert(!end_fails(m, args.rop, args.jop, j));
            assert(!index_fails(m, j));
            assert(!(config.key_of(insns@[j as int]) is Err));
            assert(!key_fails(m, j));
        }
    }
    let mut out: Vec<Vec<usize>> = Vec::new();
    let mut heads: HashMap<u64, usize> = HashMap::new();
    let mut e: usize = 0;
    while e < ends.len()
        invariant
            m == model_of(*args, *config, insns@),
            hits@.len() == insns@.len(),
            args.num >= 1,
            forall|t: usize| ends@.contains(t) <==> terminator(m, args.rop, args.jop, hits@, t),
            index.wf(),
            indexes(index, m),
            keys_of(keys@, m),
            e <= ends@.len(),
            forall|i: int| 0 <= i < out@.len() ==> gadget(m, args.rop, args.jop, hits@, #[trigger] out@[i]@),
            forall|i: int, j: int| 0 <= i < j < out@.len() ==> head_address(insns@, #[trigger] out@[i]@) != head_address(insns@, #[trigger] out@[j]@),
            forall|a: u64| #[trigger] heads@.contains_key(a) ==> heads@[a] < out@.len() && head_address(insns@, out@[heads@[a] as int]@) == a,
            forall|i: int| 0 <= i < out@.len() ==> heads@.contains_key(#[trigger] head_address(insns@, out@[i]@)),
            forall|x: int, s: Seq<usize>| 0 <= x < e && #[trigger] m.emitted(seq![ends@[x]], s)
                && trimmed(*config, insns@, s).len() > 1 ==> heads@.contains_key(head_address(insns@, trimmed(*config, insns@, s))),
        decreases ends@.len() - e,
    {
        let t = ends[e];
        assert(ends@.contains(t));
        let mut start: Vec<usize> = Vec::new();
        start.push(t);
        let exts = extend_chain::<C>(args.num, &index, &keys, start, Ghost(m));
        let mut q: usize = 0;
        while q < exts.len()
            invariant
                m == model_of(*args, *config, insns@),
                hits@.len() == insns@.len(),
                terminator(m, args.rop, args.jop, hits@, t),
                t == ends@[e as int],
                e < ends@.len(),
                forall|s: Seq<usize>| holds_chain(exts@, s) <==> m.emitted(seq![t], s),
                q <= exts@.len(),
                forall|i: int| 0 <= i < out@.len() ==> gadget(m, args.rop, args.jop, hits@, #[trigger] out@[i]@),
                forall|i: int, j: int| 0 <= i < j < out@.len() ==> head_address(insns@, #[trigger] out@[i]@) != head_address(insns@, #[trigger] out@[j]@),
                forall|a: u64| #[trigger] heads@.contains_key(a) ==> heads@[a] < out@.len() && head_address(insns@, out@[heads@[a] as int]@) == a,
                forall|i: int| 0 <= i < out@.len() ==> heads@.contains_key(#[trigger] head_address(insns@, out@[i]@)),
                forall|x: int, s: Seq<usize>| 0 <= x < e && #[trigger] m.emitted(seq![ends@[x]], s)
                    && trimmed(*config, insns@, s).len() > 1 ==> heads@.contains_key(head_address(insns@, trimmed(*config, insns@, s))),
                forall|y: int| 0 <= y < q && trimmed(*config, insns@, #[trigger] exts@[y]@).len() > 1
                    ==> heads@.contains_key(head_address(insns@, trimmed(*config, insns@, exts@[y]@))),
            decreases exts@.len() - q,
        {
            let ghost sv = exts@[q as int]@;
            assert(holds_chain(exts@, sv));
            assert(m.emitted(seq![t], sv));
            let w = match trim_chain(config, insns, &exts[q]) {
                Ok(w) => w,
                Err(e) => {
                    proof {
                        lemma_trim_fails_not_total(*config, insns@, exts@[q as int]@);
                    }
                    return Err(e);
                },
            };
            let ghost old_heads = heads@;
            let ghost old_out = out@;
            if w.len() > 1 {
                proof {
                    assert(gadget(m, args.rop, args.jop, hits@, w@));
                    lemma_gadget_in_range(m, args.rop, args.jop, hits@, w@);
                }
                let a = insns[w[0]].address;
                assert(a == head_address(insns@, w@));
                match heads.get(&a) {
                    Some(pos) => {
                        let pos = *pos;
                        out.set(pos, w);
                        proof {
                            assert forall|i: int| 0 <= i < out@.len() implies gadget(m, args.rop, args.jop, hits@, #[trigger] out@[i]@) by {
                                if i != pos {
                                    assert(out@[i] == old_out[i]);
                                }
                            }
                            assert forall|i: int, j: int| 0 <= i < j < out@.len() implies head_address(insns@, #[trigger] out@[i]@) != head_address(insns@, #[trigger] out@[j]@) by {
                                assert(head_address(insns@, out@[i]@) == head_address(insns@, old_out[i]@));
                                assert(head_address(insns@, out@[j]@) == head_address(insns@, old_out[j]@));
                            }
                            assert forall|a2: u64| #[trigger] heads@.contains_key(a2) implies heads@[a2] < out@.len() && head_address(insns@, out@[heads@[a2] as int]@) == a2 by {
                                assert(head_address(insns@, out@[heads@[a2] as int]@) == head_address(insns@, old_out[heads@[a2] as int]@));
                            }
                            assert forall|i: int| 0 <= i < out@.len() implies heads@.contains_key(#[trigger] head_address(insns@, out@[i]@)) by {
                                assert(head_address(insns@, out@[i]@) == head_address(insns@, old_out[i]@));
                            }
                        }
                    },
                    None => {
                        let n = out.len();
                        heads.insert(a, n);
                        out.push(w);
                        proof {
                            assert forall|i: int| 0 <= i < out@.len() implies gadget(m, args.rop, args.jop, hits@, #[trigger] out@[i]@) by {
                                if i < n {
                                    assert(out@[i] == old_out[i]);
                                }
                            }
                            assert forall|i: int, j: int| 0 <= i < j < out@.len() implies head_address(insns@, #[trigger] out@[i]@) != head_address(insns@, #[trigger] out@[j]@) by {
                                assert(out@[i] == old_out[i]);
                                if j < n {
                                    assert(out@[j] == old_out[j]);
                                } else {
                                    assert(old_heads.contains_key(head_address(insns@, old_out[i]@)));
                                }
                            }
                            assert forall|a2: u64| #[trigger] heads@.contains_key(a2) implies heads@[a2] < out@.len() && head_address(insns@, out@[heads@[a2] as int]@) == a2 by {
                                if a2 != a {
                                    assert(old_heads.contains_key(a2));
                                    assert(out@[heads@[a2] as int] == old_out[heads@[a2] as int]);
                                }
                            }
                            assert forall|i: int| 0 <= i < out@.len() implies heads@.contains_key(#[trigger] head_address(insns@, out@[i]@)) by {
                                if i < n {
                                    assert(out@[i] == old_out[i]);
                                    assert(old_heads.contains_key(head_address(insns@, old_out[i]@)));
                                }
                            }
                        }
                    },
                }
            }
            proof {
                assert forall|x: int, s: Seq<usize>| 0 <= x < e && #[trigger] m.emitted(seq![ends@[x]], s)
                    && trimmed(*config, insns@, s).len() > 1 implies heads@.contains_key(head_address(insns@, trimmed(*config, insns@, s))) by {
                    assert(old_heads.contains_key(head_address(insns@, trimmed(*config, insns@, s))));
                }
                assert forall|y: int| 0 <= y < q + 1 && trimmed(*config, insns@, #[trigger] exts@[y]@).len() > 1
                    implies heads@.contains_key(head_address(insns@, trimmed(*config, insns@, exts@[y]@))) by {
                    if y < q {
                        assert(old_heads.contains_key(head_address(insns@, trimmed(*config, insns@, exts@[y]@))));
                    }
                }
            }
            q = q + 1;
        }
        proof {
            assert forall|x: int, s: Seq<usize>| 0 <= x < e + 1 && #[trigger] m.emitted(seq![ends@[x]], s)
                && trimmed(*config, insns@, s).len() > 1 implies heads@.contains_key(head_address(insns@, trimmed(*config, insns@, s))) by {
                if x == e {
                    assert(holds_chain(exts@, s));
                    let y = choose|y: int| 0 <= y < exts@.len() && #[trigger] exts@[y]@ == s;
                    assert(trimmed(*config, insns@, exts@[y]@).len() > 1);
                }
            }
        }
        e = e + 1;
    }
    proof {
        assert forall|t: usize, s: Seq<usize>| #[trigger] m.emitted(seq![t], s) && terminator(m, args.rop, args.jop, hits@, t)
            && trimmed(*config, insns@, s).len() > 1
            implies starts_at(insns@, out@, head_address(insns@, trimmed(*config, insns@, s))) by {
            assert(ends@.contains(t));
            let x = choose|x: int| 0 <= x < ends@.len() && ends@[x] == t;
            assert(m.emitted(seq![ends@[x]], s));
            let a = head_address(insns@, trimmed(*config, insns@, s));
            assert(heads@.contains_key(a));
            assert(head_address(insns@, out@[heads@[a] as int]@) == a);
        }
    }
    Ok(out)
}


/// `c` holds, in order, the instructions at positions `w`, and names `file_name`.
pub open spec fn depicts(c: Chain, insns: Seq<Instruction>, file_name: String, w: Seq<usize>) -> bool {
    &&& *c.file_name == file_name
    &&& c.instructions@.len() == w.len()
    &&& forall|k: int| 0 <= k < w.len() ==> *c.instructions@[k] == insns[#[trigger] w[k] as int]
}

/// `c` shows a gadget of the search `m`.
pub open spec fn shows_gadget<C: ChainArch>(
    m: SearchModel<C>,
    rop: bool,
    jop: bool,
    hits: Seq<bool>,
    file_name: String,
    c: Chain,
) -> bool {
    exists|w: Seq<usize>| gadget(m, rop, jop, hits, w) && #[trigger] depicts(c, m.insns, file_name, w)
}

/// Address of the first instruction of a chain.
pub open spec fn chain_head(c: Chain) -> u64 {
    c.instructions@[0].address
}

/// Some chain of `chains` starts at address `a`.
pub open spec fn chain_starts_at(chains: Seq<Chain>, a: u64) -> bool {
    exists|i: int| 0 <= i < chains.len() && chains[i].instructions@.len() > 0 && chains[i].instructions@[0].address == a
}

/// The result of a search over `insns`: each chain is a gadget, no two
/// chains start at the same address, and every gadget's start address has a
/// chain.
pub open spec fn found<C: ChainArch>(
    args: Args,
    config: C,
    insns: Seq<Instruction>,
    file_name: String,
    hits: Seq<bool>,
    chains: Seq<Chain>,
) -> bool {
    let m = model_of(args, config, insns);
    &&& forall|i: int| 0 <= i < chains.len() ==> shows_gadget(m, args.rop, args.jop, hits, file_name, #[trigger] chains[i])
    &&& forall|i: int, j: int| 0 <= i < j < chains.len() ==> chain_head(#[trigger] chains[i]) != chain_head(#[trigger] chains[j])
    &&& forall|t: usize, s: Seq<usize>| #[trigger] m.emitted(seq![t], s) && terminator(m, args.rop, args.jop, hits, t)
        && trimmed(config, insns, s).len() > 1
        ==> chain_starts_at(chains, head_address(insns, trimmed(config, insns, s)))
}

/// Whether each instruction's text matches the end pattern; none match
/// when there is no end pattern.
pub open spec fn pattern_hits(args: Args, insns: Seq<Instruction>) -> Seq<bool> {
    Seq::new(insns.len(), |j: int| match args.end {
        Some(p) => pattern_match(p@, text_of(insns[j])) == Some(true),
        None => false,
    })
}

/// The end pattern, if any, compiles and can be matched against every
/// instruction's text.
pub open spec fn pattern_ok(args: Args, insns: Seq<Instruction>) -> bool {
    match args.end {
        Some(p) => pattern_compiles(p@) && forall|j: int| 0 <= j < insns.len() ==> (#[trigger] pattern_match(p@, text_of(insns[j]))) is Some,
        None => true,
    }
}

/// The search result, with terminators chosen by the end pattern.
pub open spec fn found_by_pattern<C: ChainArch>(args: Args, config: C, insns: Seq<Instruction>, file_name: String, chains: Seq<Chain>) -> bool {
    found(args, config, insns, file_name, pattern_hits(args, insns), chains)
}

/// The gadgets found in one binary.
pub struct Chains<'a> {
    pub chains: Vec<Chain<'a>>,
}

impl<'a> Chains<'a> {
    /// Searches `insns` with the end-pattern outcome of each instruction
    /// given in `hits`.
    pub fn from_hits<C: ChainArch>(
        args: &Args,
        config: &C,
        file_name: &'a String,
        insns: &'a Vec<Instruction>,
        hits: &Vec<bool>,
    ) -> (r: Result<Chains<'a>, GadgetError>)
        requires
            hits@.len() == insns@.len(),
            args.num >= 1,
        ensures
            match r {
                Ok(c) => found(*args, *config, insns@, *file_name, hits@, c.chains@),
                Err(_) => !policy_total(*config, insns@),
            },
            search_fails(model_of(*args, *config, insns@), args.rop, args.jop) ==> r is Err,
    {
        let ghost m = model_of(*args, *config, insns@);
        let out = collect_chains(args, config, insns, hits)?;
        let mut chains: Vec<Chain<'a>> = Vec::new();
        let mut i: usize = 0;
        while i < out.len()
            invariant
                m == model_of(*args, *config, insns@),
                i <= out@.len(),
                chains@.len() == i,
                forall|x: int| 0 <= x < out@.len() ==> gadget(m, args.rop, args.jop, hits@, #[trigger] out@[x]@),
                forall|x: int| 0 <= x < i ==> depicts(#[trigger] chains@[x], insns@, *file_name, out@[x]@),
            decreases out@.len() - i,
        {
            let w = &out[i];
            proof {
                lemma_gadget_in_range(m, args.rop, args.jop, hits@, w@);
            }
            let mut instructions: Vec<&'a Instruction> = Vec::new();
            let mut k: usize = 0;
            while k < w.len()
                invariant
                    k <= w@.len(),
                    instructions@.len() == k,
                    forall|y: int| 0 <= y < w@.len() ==> #[trigger] w@[y] < insns@.len(),
                    forall|y: int| 0 <= y < k ==> *instructions@[y] == insns@[#[trigger] w@[y] as int],
                decreases w@.len() - k,
            {
                instructions.push(&insns[w[k]]);
                k = k + 1;
            }
            chains.push(Chain { instructions, file_name });
            i = i + 1;
        }
        proof {
            let ghost res = chains@;
            assert forall|i: int| 0 <= i < res.len() implies shows_gadget(m, args.rop, args.jop, hits@, *file_name, #[trigger] res[i]) by {
                assert(gadget(m, args.rop, args.jop, hits@, out@[i]@));
                assert(depicts(res[i], insns@, *file_name, out@[i]@));
            }
            assert forall|i: int, j: int| 0 <= i < j < res.len()
                implies chain_head(#[trigger] res[i]) != chain_head(#[trigger] res[j]) by {
                assert(head_address(insns@, out@[i]@) != head_address(insns@, out@[j]@));
                lemma_gadget_in_range(m, args.rop, args.jop, hits@, out@[i]@);
                lemma_gadget_in_range(m, args.rop, args.jop, hits@, out@[j]@);
                assert(depicts(res[i], insns@, *file_name, out@[i]@));
                assert(depicts(res[j], insns@, *file_name, out@[j]@));
                assert(*res[i].instructions@[0] == insns@[out@[i]@[0] as int]);
                assert(*res[j].instructions@[0] == insns@[out@[j]@[0] as int]);
            }
            assert forall|t: usize, s: Seq<usize>| #[trigger] m.emitted(seq![t], s) && terminator(m, args.rop, args.jop, hits@, t)
                && trimmed(*config, insns@, s).len() > 1
                implies chain_starts_at(res, head_address(insns@, trimmed(*config, insns@, s))) by {
                assert(starts_at(insns@, out@, head_address(insns@, trimmed(*config, insns@, s))));
                let i = choose|i: int| 0 <= i < out@.len() && head_address(insns@, out@[i]@) == head_address(insns@, trimmed(*config, insns@, s));
                lemma_gadget_in_range(m, args.rop, args.jop, hits@, out@[i]@);
                assert(depicts(res[i], insns@, *file_name, out@[i]@));
                assert(*res[i].instructions@[0] == insns@[out@[i]@[0] as int]);
            }
            assert(found(*args, *config, insns@, *file_name, hits@, res));
        }
        Ok(Chains { chains })
    }

    /// Searches `insns`; when an end pattern is given, an instruction's text
    /// is matched against it.
    pub fn new<C: ChainArch>(
        args: &Args,
        config: &C,
        file_name: &'a String,
        insns: &'a Vec<Instruction>,
    ) -> (r: Result<Chains<'a>, GadgetError>)
        requires
            args.num >= 1,
        ensures
            r matches Ok(c) ==> found_by_pattern(*args, *config, insns@, *file_name, c.chains@),
            r is Err ==> !pattern_ok(*args, insns@) || !policy_total(*config, insns@),
            !pattern_ok(*args, insns@) || search_fails(model_of(*args, *config, insns@), args.rop, args.jop) ==> r is Err,
    {
        let mut hits: Vec<bool> = Vec::new();
        match &args.end {
            Some(pattern) => {
                let re = match compile(pattern.as_str()) {
                    Ok(re) => re,
                    Err(_) => {
                        return Err(GadgetError::Pattern);
                    },
                };
                let mut i: usize = 0;
                while i < insns.len()
                    invariant
                        args.end == Some(*pattern),
                        re.source() == pattern@,
                        i <= insns@.len(),
                        hits@ == pattern_hits(*args, insns@).subrange(0, i as int),
                        forall|j: int| 0 <= j < i ==> (#[trigger] pattern_match(pattern@, text_of(insns@[j]))) is Some,
                    decreases insns@.len() - i,
                {
                    let text = instruction_text(&insns[i]);
                    let hit = match text_matches(&re, text.as_str()) {
                        Ok(b) => b,
                        Err(_) => {
                            return Err(GadgetError::Pattern);
                        },
                    };
                    hits.push(hit);
                    i = i + 1;
                    assert(hits@ =~= pattern_hits(*args, insns@).subrange(0, i as int));
                }
            },
            None => {
                let mut i: usize = 0;
                while i < insns.len()
                    invariant
                        args.end is None,
                        i <= insns@.len(),
                        hits@ == pattern_hits(*args, insns@).subrange(0, i as int),
                    decreases insns@.len() - i,
                {
                    hits.push(false);
                    i = i + 1;
                    assert(hits@ =~= pattern_hits(*args, insns@).subrange(0, i as int));
                }
            },
        }
        assert(hits@ =~= pattern_hits(*args, insns@));
        Chains::from_hits(args, config, file_name, insns, &hits)
    }

    /// The chains, in the order the search produced them.
    pub fn into_vec(self) -> (r: Vec<Chain<'a>>)
        ensures
            r == self.chains,
    {
        self.chains
    }
}

} // verus!
