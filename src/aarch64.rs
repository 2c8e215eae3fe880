use vstd::prelude::*;
use crate::arch::{ChainArch, LookupKey, only_imm_spec, only_reg_spec, single_imm, single_reg, branch_next, branch_successors};
use crate::error::GadgetError;
use crate::decoder::{DecodedInsn, Decoder, DecoderConfig, aarch64_parts, aarch64_parts_of};
use crate::disassembler::DisassemblyArch;
use crate::instruction::{Instruction, InstructionDetail, Aarch64InstructionDetail, Operand, end_address};
use crate::machine::Machine;

verus! {

/// Decoder identifiers of the AArch64 instructions that the policy inspects.
pub const ARM64_INS_B: u32 = 39;
pub const ARM64_INS_BL: u32 = 46;
pub const ARM64_INS_BLR: u32 = 47;
pub const ARM64_INS_BR: u32 = 52;
pub const ARM64_INS_RET: u32 = 558;

/// Chain policy for AArch64.
pub struct Aarch64ChainArch;

pub open spec fn aarch64_detail(insn: Instruction) -> Result<Aarch64InstructionDetail, GadgetError> {
    match insn.detail {
        InstructionDetail::Aarch64(d) => Ok(d),
        _ => Err(GadgetError::UnexpectedDetail),
    }
}

pub open spec fn is_aarch64_branch(id: u32) -> bool {
    id == ARM64_INS_B || id == ARM64_INS_BL
}

/// The immediate target of a B or BL, read from its only operand.
pub open spec fn aarch64_target(insn: Instruction) -> Result<Option<i64>, GadgetError> {
    match aarch64_detail(insn) {
        Ok(d) => only_imm_spec(d.operands@),
        Err(e) => Err(e),
    }
}

impl Aarch64InstructionDetail {
    /// The only operand, if it is an immediate; an error unless there is
    /// exactly one operand.
    pub fn only_operand_imm(&self) -> (r: Result<Option<i64>, GadgetError>)
        ensures
            r == only_imm_spec(self.operands@),
    {
        single_imm(&self.operands)
    }

    /// The only operand, if it is a register; an error unless there is
    /// exactly one operand.
    pub fn only_operand_reg(&self) -> (r: Result<Option<u16>, GadgetError>)
        ensures
            r == only_reg_spec(self.operands@),
    {
        single_reg(&self.operands)
    }
}

impl Aarch64ChainArch {
    fn detail<'a>(&self, insn: &'a Instruction) -> (r: Result<&'a Aarch64InstructionDetail, GadgetError>)
        ensures
            match r {
                Ok(d) => aarch64_detail(*insn) == Ok::<Aarch64InstructionDetail, GadgetError>(*d),
                Err(e) => aarch64_detail(*insn) == Err::<Aarch64InstructionDetail, GadgetError>(e),
            },
    {
        match &insn.detail {
            InstructionDetail::Aarch64(d) => Ok(d),
            _ => Err(GadgetError::UnexpectedDetail),
        }
    }

    fn target(&self, insn: &Instruction) -> (r: Result<Option<i64>, GadgetError>)
        ensures
            r == aarch64_target(*insn),
    {
        let d = self.detail(insn)?;
        d.only_operand_imm()
    }
}

impl ChainArch for Aarch64ChainArch {
    open spec fn conditional_of(&self, insn: Instruction) -> Result<bool, GadgetError> {
        match aarch64_detail(insn) {
            Ok(d) => Ok(d.conditional),
            Err(e) => Err(e),
        }
    }

    open spec fn rop_of(&self, insn: Instruction) -> Result<bool, GadgetError> {
        Ok(insn.id == ARM64_INS_RET)
    }

    open spec fn jop_of(&self, insn: Instruction) -> Result<bool, GadgetError> {
        if insn.id == ARM64_INS_BR || insn.id == ARM64_INS_BLR {
            match aarch64_detail(insn) {
                Ok(d) => match only_reg_spec(d.operands@) {
                    Ok(r) => Ok(r is Some),
                    Err(e) => Err(e),
                },
                Err(e) => Err(e),
            }
        } else {
            Ok(false)
        }
    }

    open spec fn next_of(&self, insn: Instruction) -> Result<Seq<LookupKey>, GadgetError> {
        if is_aarch64_branch(insn.id) {
            match (aarch64_detail(insn), aarch64_target(insn)) {
                (Ok(d), Ok(t)) => Ok(branch_next(
                    match t {
                        Some(i) => Some(LookupKey::Aarch64(#[verifier::truncate] (i as u64))),
                        None => None,
                    },
                    d.conditional,
                    LookupKey::Aarch64(end_address(insn)),
                )),
                (Err(e), _) => Err(e),
                (_, Err(e)) => Err(e),
            }
        } else {
            Ok(seq![LookupKey::Aarch64(end_address(insn))])
        }
    }

    open spec fn trim_of(&self, insn: Instruction) -> Result<bool, GadgetError> {
        if is_aarch64_branch(insn.id) {
            match aarch64_target(insn) {
                Ok(t) => Ok(t is Some),
                Err(e) => Err(e),
            }
        } else {
            Ok(false)
        }
    }

    open spec fn key_of(&self, insn: Instruction) -> Result<LookupKey, GadgetError> {
        Ok(LookupKey::Aarch64(insn.address))
    }

    fn is_conditional(&self, insn: &Instruction) -> (r: Result<bool, GadgetError>) {
        let d = self.detail(insn)?;
        Ok(d.conditional)
    }

    fn is_rop(&self, insn: &Instruction) -> (r: Result<bool, GadgetError>) {
        Ok(insn.id == ARM64_INS_RET)
    }

    fn is_jop(&self, insn: &Instruction) -> (r: Result<bool, GadgetError>) {
        if insn.id == ARM64_INS_BR || insn.id == ARM64_INS_BLR {
            let d = self.detail(insn)?;
            let r = d.only_operand_reg()?;
            Ok(r.is_some())
        } else {
            Ok(false)
        }
    }

    fn next_insns(&self, insn: &Instruction) -> (r: Result<Vec<LookupKey>, GadgetError>) {
        let end = insn.end();
        if insn.id == ARM64_INS_B || insn.id == ARM64_INS_BL {
            let d = self.detail(insn)?;
            let t = self.target(insn)?;
            let target = match t {
                Some(i) => Some(LookupKey::Aarch64(#[verifier::truncate] (i as u64))),
                None => None,
            };
            let r = branch_successors(target, d.conditional, LookupKey::Aarch64(end));
            assert(r@ == branch_next(target, d.conditional, LookupKey::Aarch64(end)));
            Ok(r)
        } else {
            let r = vec![LookupKey::Aarch64(end)];
            assert(r@ == seq![LookupKey::Aarch64(end_address(*insn))]);
            Ok(r)
        }
    }

    fn should_trim(&self, insn: &Instruction) -> (r: Result<bool, GadgetError>) {
        if insn.id == ARM64_INS_B || insn.id == ARM64_INS_BL {
            let t = self.target(insn)?;
            Ok(t.is_some())
        } else {
            Ok(false)
        }
    }

    fn get_key(&self, insn: &Instruction) -> (r: Result<LookupKey, GadgetError>) {
        Ok(LookupKey::Aarch64(insn.address))
    }
}


/// AArch64 condition codes that mean "no condition".
pub const ARM64_CC_INVALID: u32 = 0;
pub const ARM64_CC_AL: u32 = 15;

/// An AArch64 detail: conditional under any condition but "always" or "invalid".
pub fn aarch64_detail_from(operands: Vec<Operand>, cc: u32) -> (r: Aarch64InstructionDetail)
    ensures
        r.operands == operands,
        r.conditional == (cc != ARM64_CC_AL && cc != ARM64_CC_INVALID),
{
    let conditional = cc != ARM64_CC_AL && cc != ARM64_CC_INVALID;
    Aarch64InstructionDetail { conditional, operands }
}

/// Decoding rules for AArch64.
pub struct Aarch64DisassemblyArch<'a> {
    pub machine: &'a Machine,
}

impl<'a> DisassemblyArch for Aarch64DisassemblyArch<'a> {
    open spec fn alignment_spec(&self) -> usize {
        4
    }

    open spec fn max_len_spec(&self) -> usize {
        4
    }

    open spec fn config_spec(&self) -> DecoderConfig {
        DecoderConfig::Aarch64(self.machine.endian)
    }

    open spec fn detail_found(&self, code: Seq<u8>, address: u64) -> bool {
        aarch64_parts_of(DecoderConfig::Aarch64(self.machine.endian), code, address) is Some
    }

    open spec fn detail_is(&self, code: Seq<u8>, address: u64, id: u32, d: InstructionDetail) -> bool {
        match aarch64_parts_of(DecoderConfig::Aarch64(self.machine.endian), code, address) {
            Some((ops, cc)) => match d {
                InstructionDetail::Aarch64(x) => x.operands@ == ops && x.conditional == (cc != ARM64_CC_AL && cc != ARM64_CC_INVALID),
                _ => false,
            },
            None => false,
        }
    }

    open spec fn produces(&self, d: InstructionDetail) -> bool {
        d is Aarch64
    }

    proof fn lemma_detail_produced(&self, code: Seq<u8>, address: u64, id: u32, d: InstructionDetail) {
    }

    proof fn lemma_produced_alike(&self, a: InstructionDetail, b: InstructionDetail) {
    }

    fn alignment(&self) -> (r: usize) {
        4
    }

    fn max_len(&self) -> (r: usize) {
        4
    }

    fn capstone(&self) -> (r: Result<Decoder, GadgetError>) {
        match Decoder::new(DecoderConfig::Aarch64(self.machine.endian)) {
            Ok(d) => Ok(d),
            Err(_) => Err(GadgetError::DecoderSetup),
        }
    }

    fn instruction_details(&self, dec: &Decoder, insn: &DecodedInsn, id: u32) -> (r: Result<InstructionDetail, GadgetError>) {
        match aarch64_parts(dec, insn) {
            Some((operands, cc)) => Ok(InstructionDetail::Aarch64(aarch64_detail_from(operands, cc))),
            None => Err(GadgetError::UnexpectedDetail),
        }
    }
}

} // verus!
