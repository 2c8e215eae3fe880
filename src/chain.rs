use vstd::prelude::*;
use crate::instruction::{Instruction, InstructionDetail, Mode, same_instruction};

verus! {

/// A gadget: instructions in execution order, and the file they come from.
pub struct Chain<'a> {
    pub instructions: Vec<&'a Instruction>,
    pub file_name: &'a String,
}

/// The mode of an ARM instruction; none for other architectures.
pub open spec fn arm_mode(i: Instruction) -> Option<Mode> {
    match i.detail {
        InstructionDetail::Arm(d) => Some(d.mode),
        _ => None,
    }
}

/// Chains are equal when they come from the same file and hold equal
/// instructions in the same order.
pub open spec fn same_chain(a: Chain, b: Chain) -> bool {
    &&& a.file_name@ == b.file_name@
    &&& a.instructions@.len() == b.instructions@.len()
    &&& forall|i: int| 0 <= i < a.instructions@.len() ==> same_instruction(*a.instructions@[i], *b.instructions@[i])
}

impl<'a> Chain<'a> {
    /// Address of the first instruction, or zero for an empty chain.
    pub fn address(&self) -> (r: u64)
        ensures
            self.instructions@.len() > 0 ==> r == self.instructions@[0].address,
            self.instructions@.len() == 0 ==> r == 0,
    {
        if self.instructions.len() == 0 {
            0
        } else {
            self.instructions[0].address
        }
    }

    /// The mode of the first ARM instruction and whether any other ARM
    /// instruction of the chain is in the other mode; none when the chain
    /// holds no ARM instruction.
    pub fn mode_marker(&self) -> (r: Option<(Mode, bool)>)
        ensures
            r is None <==> forall|j: int| 0 <= j < self.instructions@.len() ==> (#[trigger] arm_mode(*self.instructions@[j])) is None,
            match r {
                Some((m, mixed)) => {
                    &&& exists|k: int| 0 <= k < self.instructions@.len()
                        && #[trigger] arm_mode(*self.instructions@[k]) == Some(m)
                        && forall|j: int| 0 <= j < k ==> (#[trigger] arm_mode(*self.instructions@[j])) is None
                    &&& mixed <==> exists|j: int| 0 <= j < self.instructions@.len()
                        && (#[trigger] arm_mode(*self.instructions@[j])) is Some
                        && arm_mode(*self.instructions@[j]) != Some(m)
                },
                None => true,
            },
    {
        let mut first: Option<Mode> = None;
        let mut k: usize = 0;
        let mut mixed = false;
        let mut i: usize = 0;
        while i < self.instructions.len()
            invariant
                i <= self.instructions@.len(),
                first is None ==> forall|j: int| 0 <= j < i ==> (#[trigger] arm_mode(*self.instructions@[j])) is None,
                first is Some ==> k < i && arm_mode(*self.instructions@[k as int]) == first
                    && forall|j: int| 0 <= j < k ==> (#[trigger] arm_mode(*self.instructions@[j])) is None,
                first is None ==> !mixed,
                first is Some ==> (mixed <==> exists|j: int| 0 <= j < i
                    && (#[trigger] arm_mode(*self.instructions@[j])) is Some
                    && arm_mode(*self.instructions@[j]) != first),
            decreases self.instructions@.len() - i,
        {
            match &self.instructions[i].detail {
                InstructionDetail::Arm(d) => {
                    assert(arm_mode(*self.instructions@[i as int]) == Some(d.mode));
                    match first {
                        None => {
                            first = Some(d.mode);
                            k = i;
                        },
                        Some(m) => {
                            if d.mode != m {
                                mixed = true;
                            }
                        },
                    }
                },
                _ => {},
            }
            i = i + 1;
        }
        match first {
            Some(m) => Some((m, mixed)),
            None => None,
        }
    }
}

impl<'a> PartialEq for Chain<'a> {
    fn eq(&self, other: &Chain<'a>) -> (r: bool) {
        let same_file = *self.file_name == *other.file_name;
        if !same_file {
            return false;
        }
        if self.instructions.len() != other.instructions.len() {
            return false;
        }
        let mut i: usize = 0;
        while i < self.instructions.len()
            invariant
                self.file_name@ == other.file_name@,
                self.instructions@.len() == other.instructions@.len(),
                i <= self.instructions@.len(),
                forall|j: int| 0 <= j < i ==> same_instruction(*self.instructions@[j], *other.instructions@[j]),
            decreases self.instructions@.len() - i,
        {
            if !(*self.instructions[i] == *other.instructions[i]) {
                return false;
            }
            i = i + 1;
        }
        true
    }
}

impl<'a> vstd::std_specs::cmp::PartialEqSpecImpl for Chain<'a> {
    open spec fn obeys_eq_spec() -> bool {
        true
    }

    open spec fn eq_spec(&self, other: &Chain<'a>) -> bool {
        same_chain(*self, *other)
    }
}

/// `c` is one of the chains of `a`.
pub open spec fn drawn_from<'a>(a: Seq<Chain<'a>>, c: Chain<'a>) -> bool {
    exists|j: int| 0 <= j < a.len() && a[j] == c
}

/// Some chain of `a` equals `c`.
pub open spec fn covered_by<'a>(a: Seq<Chain<'a>>, c: Chain<'a>) -> bool {
    exists|i: int| 0 <= i < a.len() && same_chain(c, a[i])
}

/// Keeps the first chain of every group of equal chains, in input order.
pub fn dedup_chains<'a>(chains: Vec<Chain<'a>>) -> (r: Vec<Chain<'a>>)
    ensures
        forall|i: int| 0 <= i < r@.len() ==> drawn_from(chains@, #[trigger] r@[i]),
        forall|i: int, j: int| 0 <= i < j < r@.len() ==> !same_chain(#[trigger] r@[i], #[trigger] r@[j]),
        forall|j: int| 0 <= j < chains@.len() ==> covered_by(r@, #[trigger] chains@[j]),
{
    let ghost input = chains@;
    let mut out: Vec<Chain<'a>> = Vec::new();
    let mut rest = chains;
    let n = rest.len();
    let mut taken: usize = 0;
    while taken < n
        invariant
            n == input.len(),
            taken <= n,
            rest@ == input.subrange(taken as int, n as int),
            forall|i: int| 0 <= i < out@.len() ==> drawn_from(input, #[trigger] out@[i]),
            forall|i: int, j: int| 0 <= i < j < out@.len() ==> !same_chain(#[trigger] out@[i], #[trigger] out@[j]),
            forall|j: int| 0 <= j < taken ==> covered_by(out@, #[trigger] input[j]),
        decreases n - taken,
    {
        assert(rest@.len() > 0);
        let c = rest.remove(0);
        assert(c == input[taken as int]);
        let mut seen = false;
        let mut i: usize = 0;
        while i < out.len()
            invariant
                i <= out@.len(),
                seen ==> covered_by(out@, c),
                !seen ==> forall|x: int| 0 <= x < i ==> !same_chain(#[trigger] out@[x], c),
            decreases out@.len() - i,
        {
            if out[i] == c {
                seen = true;
                assert(same_chain(c, out@[i as int]));
            }
            i = i + 1;
        }
        proof {
            assert(rest@ =~= input.subrange(taken + 1, n as int));
        }
        let ghost old_out = out@;
        if !seen {
            out.push(c);
            proof {
                assert forall|i: int| 0 <= i < out@.len() implies drawn_from(input, #[trigger] out@[i]) by {
                    if i == out@.len() - 1 {
                        assert(input[taken as int] == out@[i]);
                    } else {
                        assert(old_out[i] == out@[i]);
                        assert(drawn_from(input, old_out[i]));
                    }
                }
                assert forall|i: int, j: int| 0 <= i < j < out@.len() implies !same_chain(#[trigger] out@[i], #[trigger] out@[j]) by {
                    if j == out@.len() - 1 {
                        assert(out@[j] == c);
                        assert(!same_chain(old_out[i], c));
                    } else {
                        assert(old_out[i] == out@[i] && old_out[j] == out@[j]);
                    }
                }
                assert forall|j: int| 0 <= j < taken + 1 implies covered_by(out@, #[trigger] input[j]) by {
                    if j == taken {
                        assert(same_chain(input[j], out@[out@.len() - 1]));
                    } else {
                        assert(covered_by(old_out, input[j]));
                        let i = choose|i: int| 0 <= i < old_out.len() && same_chain(input[j], old_out[i]);
                        assert(out@[i] == old_out[i]);
                    }
                }
            }
        } else {
            proof {
                assert forall|j: int| 0 <= j < taken + 1 implies covered_by(out@, #[trigger] input[j]) by {
                    if j == taken {
                        assert(input[j] == c);
                    }
                }
            }
        }
        taken = taken + 1;
    }
    out
}

} // verus!
