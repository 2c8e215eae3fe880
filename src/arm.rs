use vstd::prelude::*;
use crate::arch::{ChainArch, LookupKey, branch_next, branch_successors};
use crate::error::GadgetError;
use crate::decoder::{DecodedInsn, Decoder, DecoderConfig, arm_parts, arm_parts_of};
use crate::disassembler::DisassemblyArch;
use crate::instruction::{ArmInstructionDetail, ArmOperand, Instruction, InstructionDetail, Mode, end_address};
use crate::machine::Machine;

verus! {

/// Decoder identifiers of the ARM instructions that the policy inspects.
pub const ARM_INS_B: u32 = 11;
pub const ARM_INS_BL: u32 = 16;
pub const ARM_INS_BLX: u32 = 17;
pub const ARM_INS_BLXNS: u32 = 18;
pub const ARM_INS_BX: u32 = 19;
pub const ARM_INS_BXJ: u32 = 20;
pub const ARM_INS_BXNS: u32 = 21;
pub const ARM_INS_CBNZ: u32 = 22;
pub const ARM_INS_CBZ: u32 = 23;
pub const ARM_INS_LDM: u32 = 79;
pub const ARM_INS_LDMDA: u32 = 80;
pub const ARM_INS_LDMDB: u32 = 81;
pub const ARM_INS_LDMIB: u32 = 82;
pub const ARM_INS_MOV: u32 = 106;
pub const ARM_INS_POP: u32 = 127;

/// Decoder identifiers of the ARM registers that the policy inspects.
pub const ARM_REG_LR: u16 = 10;
pub const ARM_REG_PC: u16 = 11;
pub const ARM_REG_SP: u16 = 12;

pub open spec fn contains_reg(ops: Seq<ArmOperand>, reg: u16) -> bool {
    exists|j: int| 0 <= j < ops.len() && ops[j] == ArmOperand::Reg(reg)
}

/// The operand at `idx`, if it is an immediate, of an instruction that must
/// have exactly `count` operands.
pub open spec fn imm_operand_spec(ops: Seq<ArmOperand>, idx: usize, count: usize) -> Result<Option<i32>, GadgetError> {
    if ops.len() != count {
        Err(GadgetError::UnexpectedOperandCount { found: ops.len() as usize, expected: count })
    } else if idx >= count {
        Err(GadgetError::OperandOutOfBounds { index: idx, count })
    } else {
        match ops[idx as int] {
            ArmOperand::Imm(i) => Ok(Some(i)),
            _ => Ok(None),
        }
    }
}

/// The operand at `idx`, if it is a register, of an instruction that must
/// have exactly `count` operands.
pub open spec fn reg_operand_spec(ops: Seq<ArmOperand>, idx: usize, count: usize) -> Result<Option<u16>, GadgetError> {
    if ops.len() != count {
        Err(GadgetError::UnexpectedOperandCount { found: ops.len() as usize, expected: count })
    } else if idx >= count {
        Err(GadgetError::OperandOutOfBounds { index: idx, count })
    } else {
        match ops[idx as int] {
            ArmOperand::Reg(r) => Ok(Some(r)),
            _ => Ok(None),
        }
    }
}

fn contains(ops: &Vec<ArmOperand>, reg: u16) -> (r: bool)
    ensures
        r == contains_reg(ops@, reg),
{
    let mut i: usize = 0;
    while i < ops.len()
        invariant
            i <= ops@.len(),
            forall|j: int| 0 <= j < i ==> ops@[j] != ArmOperand::Reg(reg),
        decreases ops@.len() - i,
    {
        if ops[i] == ArmOperand::Reg(reg) {
            return true;
        }
        i = i + 1;
    }
    false
}

impl ArmInstructionDetail {
    pub fn contains_pc(&self) -> (r: Result<bool, GadgetError>)
        ensures
            r == Ok::<bool, GadgetError>(contains_reg(self.operands@, ARM_REG_PC)),
    {
        Ok(contains(&self.operands, ARM_REG_PC))
    }

    pub fn contains_lr(&self) -> (r: Result<bool, GadgetError>)
        ensures
            r == Ok::<bool, GadgetError>(contains_reg(self.operands@, ARM_REG_LR)),
    {
        Ok(contains(&self.operands, ARM_REG_LR))
    }

    pub fn contains_sp(&self) -> (r: Result<bool, GadgetError>)
        ensures
            r == Ok::<bool, GadgetError>(contains_reg(self.operands@, ARM_REG_SP)),
    {
        Ok(contains(&self.operands, ARM_REG_SP))
    }

    pub fn get_imm_operand(&self, idx: usize, count: usize) -> (r: Result<Option<i32>, GadgetError>)
        ensures
            r == imm_operand_spec(self.operands@, idx, count),
    {
        let len = self.operands.len();
        if len != count {
            return Err(GadgetError::UnexpectedOperandCount { found: len, expected: count });
        }
        if idx >= count {
            return Err(GadgetError::OperandOutOfBounds { index: idx, count });
        }
        match self.operands[idx] {
            ArmOperand::Imm(i) => Ok(Some(i)),
            _ => Ok(None),
        }
    }

    pub fn get_reg_operand(&self, idx: usize, count: usize) -> (r: Result<Option<u16>, GadgetError>)
        ensures
            r == reg_operand_spec(self.operands@, idx, count),
    {
        let len = self.operands.len();
        if len != count {
            return Err(GadgetError::UnexpectedOperandCount { found: len, expected: count });
        }
        if idx >= count {
            return Err(GadgetError::OperandOutOfBounds { index: idx, count });
        }
        match self.operands[idx] {
            ArmOperand::Reg(r) => Ok(Some(r)),
            _ => Ok(None),
        }
    }
}

pub open spec fn arm_detail(insn: Instruction) -> Result<ArmInstructionDetail, GadgetError> {
    match insn.detail {
        InstructionDetail::Arm(d) => Ok(d),
        _ => Err(GadgetError::UnexpectedDetail),
    }
}

pub open spec fn akey(mode: Mode, a: u64) -> LookupKey {
    LookupKey::Arm((mode, a))
}

pub open spec fn imm_key(mode: Mode, t: Option<i32>) -> Option<LookupKey> {
    match t {
        Some(i) => Some(akey(mode, #[verifier::truncate] (i as u64))),
        None => None,
    }
}

pub open spec fn is_load_multiple(id: u32) -> bool {
    id == ARM_INS_LDM || id == ARM_INS_LDMDA || id == ARM_INS_LDMDB || id == ARM_INS_LDMIB
        || id == ARM_INS_POP
}

pub open spec fn is_direct_branch(id: u32) -> bool {
    id == ARM_INS_B || id == ARM_INS_BL
}

pub open spec fn is_exchange_branch(id: u32) -> bool {
    id == ARM_INS_BX || id == ARM_INS_BLX
}

pub open spec fn is_secure_exchange(id: u32) -> bool {
    id == ARM_INS_BXNS || id == ARM_INS_BLXNS || id == ARM_INS_BXJ
}

pub open spec fn is_compare_branch(id: u32) -> bool {
    id == ARM_INS_CBZ || id == ARM_INS_CBNZ
}

/// Tests the register operand at `idx` of `count`: whether it is PC
/// (`want_pc`), or else whether it is a register other than LR.
pub open spec fn reg_test(d: ArmInstructionDetail, idx: usize, count: usize, want_pc: bool) -> Result<bool, GadgetError> {
    match reg_operand_spec(d.operands@, idx, count) {
        Ok(Some(r)) => Ok(if want_pc { r == ARM_REG_PC } else { r != ARM_REG_LR }),
        Ok(None) => Ok(false),
        Err(e) => Err(e),
    }
}

pub open spec fn has_imm(d: ArmInstructionDetail) -> Result<bool, GadgetError> {
    match imm_operand_spec(d.operands@, 0, 1) {
        Ok(t) => Ok(t is Some),
        Err(e) => Err(e),
    }
}

pub open spec fn rop_arm(id: u32, d: ArmInstructionDetail) -> Result<bool, GadgetError> {
    if id == ARM_INS_LDM || id == ARM_INS_POP {
        Ok(contains_reg(d.operands@, ARM_REG_PC))
    } else {
        Ok(false)
    }
}

pub open spec fn jop_arm(id: u32, d: ArmInstructionDetail) -> Result<bool, GadgetError> {
    if is_exchange_branch(id) {
        reg_test(d, 0, 1, false)
    } else if id == ARM_INS_MOV {
        reg_test(d, 0, 2, true)
    } else {
        Ok(false)
    }
}

/// Successors of a branch whose immediate target lies in `target_mode`,
/// falling through in `fall_mode`.
pub open spec fn mode_branch(
    d: ArmInstructionDetail,
    idx: usize,
    count: usize,
    target_mode: Mode,
    conditional: bool,
    fall: LookupKey,
) -> Result<Seq<LookupKey>, GadgetError> {
    match imm_operand_spec(d.operands@, idx, count) {
        Ok(t) => Ok(branch_next(imm_key(target_mode, t), conditional, fall)),
        Err(e) => Err(e),
    }
}

pub open spec fn next_arm(insn: Instruction, d: ArmInstructionDetail) -> Result<Seq<LookupKey>, GadgetError> {
    let fall = akey(Mode::Arm, end_address(insn));
    if is_direct_branch(insn.id) {
        mode_branch(d, 0, 1, Mode::Arm, d.conditional, fall)
    } else if is_exchange_branch(insn.id) {
        mode_branch(d, 0, 1, Mode::Thumb, d.conditional, fall)
    } else if is_secure_exchange(insn.id) {
        Ok(seq![])
    } else {
        Ok(seq![fall])
    }
}

pub open spec fn trim_arm(id: u32, d: ArmInstructionDetail) -> Result<bool, GadgetError> {
    if is_direct_branch(id) || is_exchange_branch(id) {
        has_imm(d)
    } else {
        Ok(false)
    }
}

/// Load-multiple forms that the decoder accepts in Thumb mode although they
/// cannot execute: they reference SP, or both LR and PC.
pub open spec fn bad_thumb(id: u32, d: ArmInstructionDetail) -> bool {
    is_load_multiple(id) && (contains_reg(d.operands@, ARM_REG_SP) || (contains_reg(
        d.operands@,
        ARM_REG_LR,
    ) && contains_reg(d.operands@, ARM_REG_PC)))
}

pub open spec fn rop_thumb(id: u32, d: ArmInstructionDetail) -> Result<bool, GadgetError> {
    if is_load_multiple(id) {
        Ok(contains_reg(d.operands@, ARM_REG_PC))
    } else {
        Ok(false)
    }
}

pub open spec fn jop_thumb(id: u32, d: ArmInstructionDetail) -> Result<bool, GadgetError> {
    if is_exchange_branch(id) {
        reg_test(d, 0, 1, false)
    } else {
        Ok(false)
    }
}

pub open spec fn next_thumb(insn: Instruction, d: ArmInstructionDetail) -> Result<Seq<LookupKey>, GadgetError> {
    let fall = akey(Mode::Thumb, end_address(insn));
    if bad_thumb(insn.id, d) {
        Ok(seq![])
    } else if is_direct_branch(insn.id) {
        mode_branch(d, 0, 1, Mode::Thumb, d.conditional, fall)
    } else if is_exchange_branch(insn.id) {
        mode_branch(d, 0, 1, Mode::Arm, d.conditional, fall)
    } else if is_compare_branch(insn.id) {
        mode_branch(d, 1, 2, Mode::Thumb, true, fall)
    } else if is_secure_exchange(insn.id) {
        Ok(seq![])
    } else {
        Ok(seq![fall])
    }
}

pub open spec fn trim_thumb(id: u32, d: ArmInstructionDetail) -> Result<bool, GadgetError> {
    if is_direct_branch(id) || is_exchange_branch(id) {
        has_imm(d)
    } else if is_compare_branch(id) {
        Ok(true)
    } else {
        Ok(false)
    }
}

/// Chain policy for 32-bit ARM, in both ARM and Thumb state.
pub struct ArmChainArch;

impl ArmChainArch {
    fn detail<'a>(&self, insn: &'a Instruction) -> (r: Result<&'a ArmInstructionDetail, GadgetError>)
        ensures
            match r {
                Ok(d) => arm_detail(*insn) == Ok::<ArmInstructionDetail, GadgetError>(*d),
                Err(e) => arm_detail(*insn) == Err::<ArmInstructionDetail, GadgetError>(e),
            },
    {
        match &insn.detail {
            InstructionDetail::Arm(d) => Ok(d),
            _ => Err(GadgetError::UnexpectedDetail),
        }
    }

    fn is_thumb(&self, insn: &Instruction) -> (r: Result<bool, GadgetError>)
        ensures
            match arm_detail(*insn) {
                Ok(d) => r == Ok::<bool, GadgetError>(d.mode == Mode::Thumb),
                Err(e) => r == Err::<bool, GadgetError>(e),
            },
    {
        let d = self.detail(insn)?;
        Ok(d.mode == Mode::Thumb)
    }

    fn reg_check(&self, d: &ArmInstructionDetail, idx: usize, count: usize, want_pc: bool) -> (r: Result<bool, GadgetError>)
        ensures
            r == reg_test(*d, idx, count, want_pc),
    {
        match d.get_reg_operand(idx, count)? {
            Some(r) => Ok(if want_pc { r == ARM_REG_PC } else { r != ARM_REG_LR }),
            None => Ok(false),
        }
    }

    fn branch_keys(
        &self,
        d: &ArmInstructionDetail,
        idx: usize,
        count: usize,
        target_mode: Mode,
        conditional: bool,
        fall: LookupKey,
    ) -> (r: Result<Vec<LookupKey>, GadgetError>)
        ensures
            match r {
                Ok(v) => mode_branch(*d, idx, count, target_mode, conditional, fall) == Ok::<Seq<LookupKey>, GadgetError>(v@),
                Err(e) => mode_branch(*d, idx, count, target_mode, conditional, fall) == Err::<Seq<LookupKey>, GadgetError>(e),
            },
    {
        let t = d.get_imm_operand(idx, count)?;
        let target = match t {
            Some(i) => Some(LookupKey::Arm((target_mode, #[verifier::truncate] (i as u64)))),
            None => None,
        };
        Ok(branch_successors(target, conditional, fall))
    }

    fn is_rop_arm(&self, insn: &Instruction, d: &ArmInstructionDetail) -> (r: Result<bool, GadgetError>)
        ensures
            r == rop_arm(insn.id, *d),
    {
        if insn.id == ARM_INS_LDM || insn.id == ARM_INS_POP {
            d.contains_pc()
        } else {
            Ok(false)
        }
    }

    fn is_jop_arm(&self, insn: &Instruction, d: &ArmInstructionDetail) -> (r: Result<bool, GadgetError>)
        ensures
            r == jop_arm(insn.id, *d),
    {
        if insn.id == ARM_INS_BX || insn.id == ARM_INS_BLX {
            self.reg_check(d, 0, 1, false)
        } else if insn.id == ARM_INS_MOV {
            self.reg_check(d, 0, 2, true)
        } else {
            Ok(false)
        }
    }

    fn next_insns_arm(&self, insn: &Instruction, d: &ArmInstructionDetail) -> (r: Result<Vec<LookupKey>, GadgetError>)
        ensures
            match r {
                Ok(v) => next_arm(*insn, *d) == Ok::<Seq<LookupKey>, GadgetError>(v@),
                Err(e) => next_arm(*insn, *d) == Err::<Seq<LookupKey>, GadgetError>(e),
            },
    {
        let fall = LookupKey::Arm((Mode::Arm, insn.end()));
        let id = insn.id;
        if id == ARM_INS_B || id == ARM_INS_BL {
            self.branch_keys(d, 0, 1, Mode::Arm, d.conditional, fall)
        } else if id == ARM_INS_BX || id == ARM_INS_BLX {
            self.branch_keys(d, 0, 1, Mode::Thumb, d.conditional, fall)
        } else if id == ARM_INS_BXNS || id == ARM_INS_BLXNS || id == ARM_INS_BXJ {
            let r = Vec::new();
            assert(r@ =~= seq![]);
            Ok(r)
        } else {
            let r = vec![fall];
            assert(r@ =~= seq![fall]);
            Ok(r)
        }
    }

    fn should_trim_arm(&self, insn: &Instruction, d: &ArmInstructionDetail) -> (r: Result<bool, GadgetError>)
        ensures
            r == trim_arm(insn.id, *d),
    {
        let id = insn.id;
        if id == ARM_INS_B || id == ARM_INS_BL || id == ARM_INS_BX || id == ARM_INS_BLX {
            let t = d.get_imm_operand(0, 1)?;
            Ok(t.is_some())
        } else {
            Ok(false)
        }
    }

    fn is_bad_thumb(&self, insn: &Instruction, d: &ArmInstructionDetail) -> (r: Result<bool, GadgetError>)
        ensures
            r == Ok::<bool, GadgetError>(bad_thumb(insn.id, *d)),
    {
        let id = insn.id;
        if id == ARM_INS_LDM || id == ARM_INS_LDMDA || id == ARM_INS_LDMDB || id == ARM_INS_LDMIB
            || id == ARM_INS_POP {
            let sp = d.contains_sp()?;
            let lr = d.contains_lr()?;
            let pc = d.contains_pc()?;
            Ok(sp || (lr && pc))
        } else {
            Ok(false)
        }
    }

    fn is_rop_thumb(&self, insn: &Instruction, d: &ArmInstructionDetail) -> (r: Result<bool, GadgetError>)
        ensures
            r == rop_thumb(insn.id, *d),
    {
        let id = insn.id;
        if id == ARM_INS_LDM || id == ARM_INS_LDMDA || id == ARM_INS_LDMDB || id == ARM_INS_LDMIB
            || id == ARM_INS_POP {
            d.contains_pc()
        } else {
            Ok(false)
        }
    }

    fn is_jop_thumb(&self, insn: &Instruction, d: &ArmInstructionDetail) -> (r: Result<bool, GadgetError>)
        ensures
            r == jop_thumb(insn.id, *d),
    {
        if insn.id == ARM_INS_BX || insn.id == ARM_INS_BLX {
            self.reg_check(d, 0, 1, false)
        } else {
            Ok(false)
        }
    }

    fn next_insns_thumb(&self, insn: &Instruction, d: &ArmInstructionDetail) -> (r: Result<Vec<LookupKey>, GadgetError>)
        ensures
            match r {
                Ok(v) => next_thumb(*insn, *d) == Ok::<Seq<LookupKey>, GadgetError>(v@),
                Err(e) => next_thumb(*insn, *d) == Err::<Seq<LookupKey>, GadgetError>(e),
            },
    {
        if self.is_bad_thumb(insn, d)? {
            let r = Vec::new();
            assert(r@ =~= seq![]);
            return Ok(r);
        }
        let fall = LookupKey::Arm((Mode::Thumb, insn.end()));
        let id = insn.id;
        if id == ARM_INS_B || id == ARM_INS_BL {
            self.branch_keys(d, 0, 1, Mode::Thumb, d.conditional, fall)
        } else if id == ARM_INS_BX || id == ARM_INS_BLX {
            self.branch_keys(d, 0, 1, Mode::Arm, d.conditional, fall)
        } else if id == ARM_INS_CBZ || id == ARM_INS_CBNZ {
            self.branch_keys(d, 1, 2, Mode::Thumb, true, fall)
        } else if id == ARM_INS_BXNS || id == ARM_INS_BLXNS || id == ARM_INS_BXJ {
            let r = Vec::new();
            assert(r@ =~= seq![]);
            Ok(r)
        } else {
            let r = vec![fall];
            assert(r@ =~= seq![fall]);
            Ok(r)
        }
    }

    fn should_trim_thumb(&self, insn: &Instruction, d: &ArmInstructionDetail) -> (r: Result<bool, GadgetError>)
        ensures
            r == trim_thumb(insn.id, *d),
    {
        let id = insn.id;
        if id == ARM_INS_B || id == ARM_INS_BL || id == ARM_INS_BX || id == ARM_INS_BLX {
            let t = d.get_imm_operand(0, 1)?;
            Ok(t.is_some())
        } else if id == ARM_INS_CBZ || id == ARM_INS_CBNZ {
            Ok(true)
        } else {
            Ok(false)
        }
    }
}

impl ChainArch for ArmChainArch {
    open spec fn conditional_of(&self, insn: Instruction) -> Result<bool, GadgetError> {
        match arm_detail(insn) {
            Ok(d) => Ok(d.conditional),
            Err(e) => Err(e),
        }
    }

    open spec fn rop_of(&self, insn: Instruction) -> Result<bool, GadgetError> {
        match arm_detail(insn) {
            Ok(d) => if d.mode == Mode::Thumb { rop_thumb(insn.id, d) } else { rop_arm(insn.id, d) },
            Err(e) => Err(e),
        }
    }

    open spec fn jop_of(&self, insn: Instruction) -> Result<bool, GadgetError> {
        match arm_detail(insn) {
            Ok(d) => if d.mode == Mode::Thumb { jop_thumb(insn.id, d) } else { jop_arm(insn.id, d) },
            Err(e) => Err(e),
        }
    }

    open spec fn next_of(&self, insn: Instruction) -> Result<Seq<LookupKey>, GadgetError> {
        match arm_detail(insn) {
            Ok(d) => if d.mode == Mode::Thumb { next_thumb(insn, d) } else { next_arm(insn, d) },
            Err(e) => Err(e),
        }
    }

    open spec fn trim_of(&self, insn: Instruction) -> Result<bool, GadgetError> {
        match arm_detail(insn) {
            Ok(d) => if d.mode == Mode::Thumb { trim_thumb(insn.id, d) } else { trim_arm(insn.id, d) },
            Err(e) => Err(e),
        }
    }

    open spec fn key_of(&self, insn: Instruction) -> Result<LookupKey, GadgetError> {
        match arm_detail(insn) {
            Ok(d) => Ok(akey(d.mode, insn.address)),
            Err(e) => Err(e),
        }
    }

    fn is_conditional(&self, insn: &Instruction) -> (r: Result<bool, GadgetError>) {
        let d = self.detail(insn)?;
        Ok(d.conditional)
    }

    fn is_rop(&self, insn: &Instruction) -> (r: Result<bool, GadgetError>) {
        let d = self.detail(insn)?;
        if self.is_thumb(insn)? {
            self.is_rop_thumb(insn, d)
        } else {
            self.is_rop_arm(insn, d)
        }
    }

    fn is_jop(&self, insn: &Instruction) -> (r: Result<bool, GadgetError>) {
        let d = self.detail(insn)?;
        if self.is_thumb(insn)? {
            self.is_jop_thumb(insn, d)
        } else {
            self.is_jop_arm(insn, d)
        }
    }

    fn next_insns(&self, insn: &Instruction) -> (r: Result<Vec<LookupKey>, GadgetError>) {
        let d = self.detail(insn)?;
        if self.is_thumb(insn)? {
            self.next_insns_thumb(insn, d)
        } else {
            self.next_insns_arm(insn, d)
        }
    }

    fn should_trim(&self, insn: &Instruction) -> (r: Result<bool, GadgetError>) {
        let d = self.detail(insn)?;
        if self.is_thumb(insn)? {
            self.should_trim_thumb(insn, d)
        } else {
            self.should_trim_arm(insn, d)
        }
    }

    fn get_key(&self, insn: &Instruction) -> (r: Result<LookupKey, GadgetError>) {
        let d = self.detail(insn)?;
        Ok(LookupKey::Arm((d.mode, insn.address)))
    }
}


/// ARM condition codes that mean "no condition".
pub const ARM_CC_INVALID: u32 = 0;
pub const ARM_CC_AL: u32 = 15;

/// An ARM detail: conditional under any condition but "always" or "invalid".
pub fn arm_detail_from(operands: Vec<ArmOperand>, cc: u32, mode: Mode) -> (r: ArmInstructionDetail)
    ensures
        r.operands == operands,
        r.mode == mode,
        r.conditional == (cc != ARM_CC_AL && cc != ARM_CC_INVALID),
{
    let conditional = cc != ARM_CC_AL && cc != ARM_CC_INVALID;
    ArmInstructionDetail { conditional, operands, mode }
}

/// Decoding rules for 32-bit ARM in ARM state.
pub struct ArmDisassemblyArch<'a> {
    pub machine: &'a Machine,
}

impl<'a> DisassemblyArch for ArmDisassemblyArch<'a> {
    open spec fn alignment_spec(&self) -> usize {
        4
    }

    open spec fn max_len_spec(&self) -> usize {
        4
    }

    open spec fn config_spec(&self) -> DecoderConfig {
        DecoderConfig::Arm(Mode::Arm, self.machine.endian)
    }

    open spec fn detail_found(&self, code: Seq<u8>, address: u64) -> bool {
        arm_parts_of(DecoderConfig::Arm(Mode::Arm, self.machine.endian), code, address) is Some
    }

    open spec fn detail_is(&self, code: Seq<u8>, address: u64, id: u32, d: InstructionDetail) -> bool {
        match arm_parts_of(DecoderConfig::Arm(Mode::Arm, self.machine.endian), code, address) {
            Some((ops, cc)) => match d {
                InstructionDetail::Arm(x) => x.operands@ == ops && x.mode == Mode::Arm
                    && x.conditional == (cc != ARM_CC_AL && cc != ARM_CC_INVALID),
                _ => false,
            },
            None => false,
        }
    }

    open spec fn produces(&self, d: InstructionDetail) -> bool {
        d matches InstructionDetail::Arm(x) && x.mode == Mode::Arm
    }

    proof fn lemma_detail_produced(&self, code: Seq<u8>, address: u64, id: u32, d: InstructionDetail) {
    }

    proof fn lemma_produced_alike(&self, a: InstructionDetail, b: InstructionDetail) {
    }

    fn alignment(&self) -> (r: usize) {
        4
    }

    fn max_len(&self) -> (r: usize) {
        4
    }

    fn capstone(&self) -> (r: Result<Decoder, GadgetError>) {
        match Decoder::new(DecoderConfig::Arm(Mode::Arm, self.machine.endian)) {
            Ok(d) => Ok(d),
            Err(_) => Err(GadgetError::DecoderSetup),
        }
    }

    fn instruction_details(&self, dec: &Decoder, insn: &DecodedInsn, id: u32) -> (r: Result<InstructionDetail, GadgetError>) {
        match arm_parts(dec, insn) {
            Some((operands, cc)) => Ok(InstructionDetail::Arm(arm_detail_from(operands, cc, Mode::Arm))),
            None => Err(GadgetError::UnexpectedDetail),
        }
    }
}

/// Decoding rules for 32-bit ARM in Thumb state.
pub struct ThumbDisassemblyArch<'a> {
    pub machine: &'a Machine,
}

impl<'a> DisassemblyArch for ThumbDisassemblyArch<'a> {
    open spec fn alignment_spec(&self) -> usize {
        4
    }

    open spec fn max_len_spec(&self) -> usize {
        4
    }

    open spec fn config_spec(&self) -> DecoderConfig {
        DecoderConfig::Arm(Mode::Thumb, self.machine.endian)
    }

    open spec fn detail_found(&self, code: Seq<u8>, address: u64) -> bool {
        arm_parts_of(DecoderConfig::Arm(Mode::Thumb, self.machine.endian), code, address) is Some
    }

    open spec fn detail_is(&self, code: Seq<u8>, address: u64, id: u32, d: InstructionDetail) -> bool {
        match arm_parts_of(DecoderConfig::Arm(Mode::Thumb, self.machine.endian), code, address) {
            Some((ops, cc)) => match d {
                InstructionDetail::Arm(x) => x.operands@ == ops && x.mode == Mode::Thumb
                    && x.conditional == (cc != ARM_CC_AL && cc != ARM_CC_INVALID),
                _ => false,
            },
            None => false,
        }
    }

    open spec fn produces(&self, d: InstructionDetail) -> bool {
        d matches InstructionDetail::Arm(x) && x.mode == Mode::Thumb
    }

    proof fn lemma_detail_produced(&self, code: Seq<u8>, address: u64, id: u32, d: InstructionDetail) {
    }

    proof fn lemma_produced_alike(&self, a: InstructionDetail, b: InstructionDetail) {
    }

    fn alignment(&self) -> (r: usize) {
        4
    }

    fn max_len(&self) -> (r: usize) {
        4
    }

    fn capstone(&self) -> (r: Result<Decoder, GadgetError>) {
        match Decoder::new(DecoderConfig::Arm(Mode::Thumb, self.machine.endian)) {
            Ok(d) => Ok(d),
            Err(_) => Err(GadgetError::DecoderSetup),
        }
    }

    fn instruction_details(&self, dec: &Decoder, insn: &DecodedInsn, id: u32) -> (r: Result<InstructionDetail, GadgetError>) {
        match arm_parts(dec, insn) {
            Some((operands, cc)) => Ok(InstructionDetail::Arm(arm_detail_from(operands, cc, Mode::Thumb))),
            None => Err(GadgetError::UnexpectedDetail),
        }
    }
}

} // verus!
