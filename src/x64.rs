use vstd::prelude::*;
use crate::arch::{ChainArch, LookupKey, only_imm_spec, single_imm, branch_next, branch_successors};
use crate::error::GadgetError;
use crate::decoder::{DecodedInsn, Decoder, DecoderConfig, x86_parts, x86_parts_of};
use crate::disassembler::DisassemblyArch;
use crate::instruction::{Instruction, InstructionDetail, Operand, X64InstructionDetail, end_address};

verus! {

/// Decoder identifiers of the x86 instructions that the policy inspects.
pub const X86_INS_CALL: u32 = 62;
pub const X86_INS_JMP: u32 = 172;
pub const X86_INS_RET: u32 = 633;

/// Chain policy for x86-64.
pub struct X64ChainArch;

pub open spec fn x64_detail(insn: Instruction) -> Result<X64InstructionDetail, GadgetError> {
    match insn.detail {
        InstructionDetail::X64(d) => Ok(d),
        _ => Err(GadgetError::UnexpectedDetail),
    }
}

pub open spec fn is_x64_branch(id: u32) -> bool {
    id == X86_INS_JMP || id == X86_INS_CALL
}

/// The immediate target of a JMP or CALL, read from its only operand.
pub open spec fn x64_target(insn: Instruction) -> Result<Option<i64>, GadgetError> {
    match x64_detail(insn) {
        Ok(d) => only_imm_spec(d.operands@),
        Err(e) => Err(e),
    }
}

impl X64InstructionDetail {
    /// The only operand, if it is an immediate; an error unless there is
    /// exactly one operand.
    pub fn only_operand_imm(&self) -> (r: Result<Option<i64>, GadgetError>)
        ensures
            r == only_imm_spec(self.operands@),
    {
        single_imm(&self.operands)
    }
}

impl X64ChainArch {
    fn detail<'a>(&self, insn: &'a Instruction) -> (r: Result<&'a X64InstructionDetail, GadgetError>)
        ensures
            match r {
                Ok(d) => x64_detail(*insn) == Ok::<X64InstructionDetail, GadgetError>(*d),
                Err(e) => x64_detail(*insn) == Err::<X64InstructionDetail, GadgetError>(e),
            },
    {
        match &insn.detail {
            InstructionDetail::X64(d) => Ok(d),
            _ => Err(GadgetError::UnexpectedDetail),
        }
    }

    fn target(&self, insn: &Instruction) -> (r: Result<Option<i64>, GadgetError>)
        ensures
            r == x64_target(*insn),
    {
        let d = self.detail(insn)?;
        d.only_operand_imm()
    }
}

impl ChainArch for X64ChainArch {
    open spec fn conditional_of(&self, insn: Instruction) -> Result<bool, GadgetError> {
        match x64_detail(insn) {
            Ok(d) => Ok(d.conditional),
            Err(e) => Err(e),
        }
    }

    open spec fn rop_of(&self, insn: Instruction) -> Result<bool, GadgetError> {
        Ok(insn.id == X86_INS_RET)
    }

    open spec fn jop_of(&self, insn: Instruction) -> Result<bool, GadgetError> {
        if is_x64_branch(insn.id) {
            match x64_target(insn) {
                Ok(t) => Ok(t is None),
                Err(e) => Err(e),
            }
        } else {
            Ok(false)
        }
    }

    open spec fn next_of(&self, insn: Instruction) -> Result<Seq<LookupKey>, GadgetError> {
        if is_x64_branch(insn.id) {
            match (x64_detail(insn), x64_target(insn)) {
                (Ok(d), Ok(t)) => Ok(branch_next(
                    match t {
                        Some(i) => Some(LookupKey::X64(#[verifier::truncate] (i as u64))),
                        None => None,
                    },
                    d.conditional,
                    LookupKey::X64(end_address(insn)),
                )),
                (Err(e), _) => Err(e),
                (_, Err(e)) => Err(e),
            }
        } else {
            Ok(seq![LookupKey::X64(end_address(insn))])
        }
    }

    open spec fn trim_of(&self, insn: Instruction) -> Result<bool, GadgetError> {
        if is_x64_branch(insn.id) {
            match x64_target(insn) {
                Ok(t) => Ok(t is Some),
                Err(e) => Err(e),
            }
        } else {
            Ok(false)
        }
    }

    open spec fn key_of(&self, insn: Instruction) -> Result<LookupKey, GadgetError> {
        Ok(LookupKey::X64(insn.address))
    }

    fn is_conditional(&self, insn: &Instruction) -> (r: Result<bool, GadgetError>) {
        let d = self.detail(insn)?;
        Ok(d.conditional)
    }

    fn is_rop(&self, insn: &Instruction) -> (r: Result<bool, GadgetError>) {
        Ok(insn.id == X86_INS_RET)
    }

    fn is_jop(&self, insn: &Instruction) -> (r: Result<bool, GadgetError>) {
        if insn.id == X86_INS_JMP || insn.id == X86_INS_CALL {
            let t = self.target(insn)?;
            Ok(t.is_none())
        } else {
            Ok(false)
        }
    }

    fn next_insns(&self, insn: &Instruction) -> (r: Result<Vec<LookupKey>, GadgetError>) {
        let end = insn.end();
        if insn.id == X86_INS_JMP || insn.id == X86_INS_CALL {
            let d = self.detail(insn)?;
            let t = self.target(insn)?;
            let target = match t {
                Some(i) => Some(LookupKey::X64(#[verifier::truncate] (i as u64))),
                None => None,
            };
            let r = branch_successors(target, d.conditional, LookupKey::X64(end));
            assert(r@ == branch_next(target, d.conditional, LookupKey::X64(end)));
            Ok(r)
        } else {
            let r = vec![LookupKey::X64(end)];
            assert(r@ == seq![LookupKey::X64(end_address(*insn))]);
            Ok(r)
        }
    }

    fn should_trim(&self, insn: &Instruction) -> (r: Result<bool, GadgetError>) {
        if insn.id == X86_INS_JMP || insn.id == X86_INS_CALL {
            let t = self.target(insn)?;
            Ok(t.is_some())
        } else {
            Ok(false)
        }
    }

    fn get_key(&self, insn: &Instruction) -> (r: Result<LookupKey, GadgetError>) {
        Ok(LookupKey::X64(insn.address))
    }
}


/// XOP condition codes that mean "never" or "no condition".
pub const X86_XOP_CC_INVALID: u32 = 0;
pub const X86_XOP_CC_FALSE: u32 = 7;

/// An x86 detail: conditional when an XOP condition other than "invalid"
/// or "false" is present.
pub fn x64_detail_from(operands: Vec<Operand>, xop_cc: u32) -> (r: X64InstructionDetail)
    ensures
        r.operands == operands,
        r.conditional == (xop_cc != X86_XOP_CC_INVALID && xop_cc != X86_XOP_CC_FALSE),
{
    let conditional = xop_cc != X86_XOP_CC_INVALID && xop_cc != X86_XOP_CC_FALSE;
    X64InstructionDetail { conditional, operands }
}

/// Decoding rules for x86-64.
pub struct X64DisassemblyArch;

impl DisassemblyArch for X64DisassemblyArch {
    open spec fn alignment_spec(&self) -> usize {
        1
    }

    open spec fn max_len_spec(&self) -> usize {
        15
    }

    open spec fn config_spec(&self) -> DecoderConfig {
        DecoderConfig::X86
    }

    open spec fn detail_found(&self, code: Seq<u8>, address: u64) -> bool {
        x86_parts_of(DecoderConfig::X86, code, address) is Some
    }

    open spec fn detail_is(&self, code: Seq<u8>, address: u64, id: u32, d: InstructionDetail) -> bool {
        match x86_parts_of(DecoderConfig::X86, code, address) {
            Some((ops, cc)) => match d {
                InstructionDetail::X64(x) => x.operands@ == ops && x.conditional == (cc != X86_XOP_CC_INVALID && cc != X86_XOP_CC_FALSE),
                _ => false,
            },
            None => false,
        }
    }

    open spec fn produces(&self, d: InstructionDetail) -> bool {
        d is X64
    }

    proof fn lemma_detail_produced(&self, code: Seq<u8>, address: u64, id: u32, d: InstructionDetail) {
    }

    proof fn lemma_produced_alike(&self, a: InstructionDetail, b: InstructionDetail) {
    }

    fn alignment(&self) -> (r: usize) {
        1
    }

    fn max_len(&self) -> (r: usize) {
        15
    }

    fn capstone(&self) -> (r: Result<Decoder, GadgetError>) {
        match Decoder::new(DecoderConfig::X86) {
            Ok(d) => Ok(d),
            Err(_) => Err(GadgetError::DecoderSetup),
        }
    }

    fn instruction_details(&self, dec: &Decoder, insn: &DecodedInsn, id: u32) -> (r: Result<InstructionDetail, GadgetError>) {
        match x86_parts(dec, insn) {
            Some((operands, cc)) => Ok(InstructionDetail::X64(x64_detail_from(operands, cc))),
            None => Err(GadgetError::UnexpectedDetail),
        }
    }
}

} // verus!
