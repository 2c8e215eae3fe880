use vstd::prelude::*;
use crate::error::GadgetError;
use crate::instruction::{Instruction, Mode, Operand};

verus! {

/// Key of an ARM instruction: its instruction-set state and its address.
pub type ArmLookupKey = (Mode, u64);

/// Entry position of an instruction, one variant per architecture. ARM keys
/// carry the mode so that ARM and Thumb addresses never collide.
#[derive(Clone, Copy, Debug, PartialEq, Eq, Hash)]
pub enum LookupKey {
    Arm(ArmLookupKey),
    X64(u64),
    Aarch64(u64),
    PowerPc(u64),
}

/// The control-flow rules of one architecture, used by the chain search.
pub trait ChainArch {
    spec fn conditional_of(&self, insn: Instruction) -> Result<bool, GadgetError>;

    spec fn rop_of(&self, insn: Instruction) -> Result<bool, GadgetError>;

    spec fn jop_of(&self, insn: Instruction) -> Result<bool, GadgetError>;

    spec fn next_of(&self, insn: Instruction) -> Result<Seq<LookupKey>, GadgetError>;

    spec fn trim_of(&self, insn: Instruction) -> Result<bool, GadgetError>;

    spec fn key_of(&self, insn: Instruction) -> Result<LookupKey, GadgetError>;

    /// Whether the instruction only executes under a condition.
    fn is_conditional(&self, insn: &Instruction) -> (r: Result<bool, GadgetError>)
        ensures
            r == self.conditional_of(*insn),
    ;

    /// Whether the instruction ends a return-oriented gadget.
    fn is_rop(&self, insn: &Instruction) -> (r: Result<bool, GadgetError>)
        ensures
            r == self.rop_of(*insn),
    ;

    /// Whether the instruction ends a jump-oriented gadget.
    fn is_jop(&self, insn: &Instruction) -> (r: Result<bool, GadgetError>)
        ensures
            r == self.jop_of(*insn),
    ;

    /// Keys of the instructions that may execute next.
    fn next_insns(&self, insn: &Instruction) -> (r: Result<Vec<LookupKey>, GadgetError>)
        ensures
            match r {
                Ok(v) => self.next_of(*insn) == Ok::<Seq<LookupKey>, GadgetError>(v@),
                Err(e) => self.next_of(*insn) == Err::<Seq<LookupKey>, GadgetError>(e),
            },
    ;

    /// Whether a chain that starts with this instruction drops it.
    fn should_trim(&self, insn: &Instruction) -> (r: Result<bool, GadgetError>)
        ensures
            r == self.trim_of(*insn),
    ;

    /// The key under which predecessors of this instruction are indexed.
    fn get_key(&self, insn: &Instruction) -> (r: Result<LookupKey, GadgetError>)
        ensures
            r == self.key_of(*insn),
    ;
}

/// The single operand of an instruction, if it is an immediate.
pub open spec fn only_imm_spec(ops: Seq<Operand>) -> Result<Option<i64>, GadgetError> {
    if ops.len() != 1 {
        Err(GadgetError::UnexpectedOperandCount { found: ops.len() as usize, expected: 1 })
    } else {
        match ops[0] {
            Operand::Imm(i) => Ok(Some(i)),
            _ => Ok(None),
        }
    }
}

/// The single operand of an instruction, if it is a register.
pub open spec fn only_reg_spec(ops: Seq<Operand>) -> Result<Option<u16>, GadgetError> {
    if ops.len() != 1 {
        Err(GadgetError::UnexpectedOperandCount { found: ops.len() as usize, expected: 1 })
    } else {
        match ops[0] {
            Operand::Reg(r) => Ok(Some(r)),
            _ => Ok(None),
        }
    }
}

/// The single operand, if it is an immediate.
pub fn single_imm(ops: &Vec<Operand>) -> (r: Result<Option<i64>, GadgetError>)
    ensures
        r == only_imm_spec(ops@),
{
    if ops.len() != 1 {
        return Err(GadgetError::UnexpectedOperandCount { found: ops.len(), expected: 1 });
    }
    match ops[0] {
        Operand::Imm(i) => Ok(Some(i)),
        _ => Ok(None),
    }
}

/// The single operand, if it is a register.
pub fn single_reg(ops: &Vec<Operand>) -> (r: Result<Option<u16>, GadgetError>)
    ensures
        r == only_reg_spec(ops@),
{
    if ops.len() != 1 {
        return Err(GadgetError::UnexpectedOperandCount { found: ops.len(), expected: 1 });
    }
    match ops[0] {
        Operand::Reg(r) => Ok(Some(r)),
        _ => Ok(None),
    }
}

/// Successors of a direct branch: its target, plus the fall-through when
/// the branch is conditional; none when the target is not an immediate.
pub open spec fn branch_next(target: Option<LookupKey>, conditional: bool, fall: LookupKey) -> Seq<LookupKey> {
    match target {
        Some(t) => if conditional { seq![t, fall] } else { seq![t] },
        None => seq![],
    }
}

pub fn branch_successors(target: Option<LookupKey>, conditional: bool, fall: LookupKey) -> (r: Vec<LookupKey>)
    ensures
        r@ == branch_next(target, conditional, fall),
{
    match target {
        Some(t) => if conditional { vec![t, fall] } else { vec![t] },
        None => vec![],
    }
}

} // verus!
