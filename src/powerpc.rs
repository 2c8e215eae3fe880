use vstd::prelude::*;
use crate::arch::{ChainArch, LookupKey};
use crate::error::GadgetError;
use crate::decoder::{DecodedInsn, Decoder, DecoderConfig, ppc_parts, ppc_parts_of};
use crate::disassembler::DisassemblyArch;
use crate::instruction::{Instruction, InstructionDetail, Operand, PowerPcInstructionDetail, end_address};
use crate::machine::Machine;

verus! {

/// Decoder identifiers of the PowerPC branch instructions.
pub const PPC_INS_B: u32 = 15;
pub const PPC_INS_BA: u32 = 16;
pub const PPC_INS_BC: u32 = 17;
pub const PPC_INS_BCA: u32 = 18;
pub const PPC_INS_BCCTRL: u32 = 20;
pub const PPC_INS_BCL: u32 = 34;
pub const PPC_INS_BCLA: u32 = 35;
pub const PPC_INS_BCLRL: u32 = 37;
pub const PPC_INS_BCTR: u32 = 38;
pub const PPC_INS_BCTRL: u32 = 39;
pub const PPC_INS_BDNZ: u32 = 40;
pub const PPC_INS_BDNZA: u32 = 41;
pub const PPC_INS_BDNZF: u32 = 42;
pub const PPC_INS_BDNZFA: u32 = 43;
pub const PPC_INS_BDNZFL: u32 = 44;
pub const PPC_INS_BDNZFLA: u32 = 45;
pub const PPC_INS_BDNZFLR: u32 = 46;
pub const PPC_INS_BDNZFLRL: u32 = 47;
pub const PPC_INS_BDNZL: u32 = 48;
pub const PPC_INS_BDNZLA: u32 = 49;
pub const PPC_INS_BDNZLR: u32 = 50;
pub const PPC_INS_BDNZLRL: u32 = 51;
pub const PPC_INS_BDNZT: u32 = 52;
pub const PPC_INS_BDNZTA: u32 = 53;
pub const PPC_INS_BDNZTL: u32 = 54;
pub const PPC_INS_BDNZTLA: u32 = 55;
pub const PPC_INS_BDNZTLR: u32 = 56;
pub const PPC_INS_BDNZTLRL: u32 = 57;
pub const PPC_INS_BDZ: u32 = 58;
pub const PPC_INS_BDZA: u32 = 59;
pub const PPC_INS_BDZF: u32 = 60;
pub const PPC_INS_BDZFA: u32 = 61;
pub const PPC_INS_BDZFL: u32 = 62;
pub const PPC_INS_BDZFLA: u32 = 63;
pub const PPC_INS_BDZFLR: u32 = 64;
pub const PPC_INS_BDZFLRL: u32 = 65;
pub const PPC_INS_BDZL: u32 = 66;
pub const PPC_INS_BDZLA: u32 = 67;
pub const PPC_INS_BDZLR: u32 = 68;
pub const PPC_INS_BDZLRL: u32 = 69;
pub const PPC_INS_BDZT: u32 = 70;
pub const PPC_INS_BDZTA: u32 = 71;
pub const PPC_INS_BDZTL: u32 = 72;
pub const PPC_INS_BDZTLA: u32 = 73;
pub const PPC_INS_BDZTLR: u32 = 74;
pub const PPC_INS_BDZTLRL: u32 = 75;
pub const PPC_INS_BF: u32 = 84;
pub const PPC_INS_BFA: u32 = 85;
pub const PPC_INS_BFCTR: u32 = 86;
pub const PPC_INS_BFCTRL: u32 = 87;
pub const PPC_INS_BFL: u32 = 88;
pub const PPC_INS_BFLA: u32 = 89;
pub const PPC_INS_BFLR: u32 = 90;
pub const PPC_INS_BFLRL: u32 = 91;
pub const PPC_INS_BL: u32 = 108;
pub const PPC_INS_BLA: u32 = 109;
pub const PPC_INS_BLR: u32 = 118;
pub const PPC_INS_BLRL: u32 = 119;
pub const PPC_INS_BT: u32 = 178;
pub const PPC_INS_BTA: u32 = 179;
pub const PPC_INS_BTCTR: u32 = 180;
pub const PPC_INS_BTCTRL: u32 = 181;
pub const PPC_INS_BTL: u32 = 182;
pub const PPC_INS_BTLA: u32 = 183;
pub const PPC_INS_BTLR: u32 = 184;
pub const PPC_INS_BTLRL: u32 = 185;

/// Conditional branch forms: branch on true or false, and the
/// decrement-and-branch families, with their link and absolute variants.
pub open spec fn is_conditional_branch_id(id: u32) -> bool {
    id == PPC_INS_BT ||
    id == PPC_INS_BTA ||
    id == PPC_INS_BTLR ||
    id == PPC_INS_BTCTR ||
    id == PPC_INS_BTL ||
    id == PPC_INS_BTLA ||
    id == PPC_INS_BTLRL ||
    id == PPC_INS_BTCTRL ||
    id == PPC_INS_BF ||
    id == PPC_INS_BFA ||
    id == PPC_INS_BFLR ||
    id == PPC_INS_BFCTR ||
    id == PPC_INS_BFL ||
    id == PPC_INS_BFLA ||
    id == PPC_INS_BFLRL ||
    id == PPC_INS_BFCTRL ||
    id == PPC_INS_BDNZ ||
    id == PPC_INS_BDNZA ||
    id == PPC_INS_BDNZLR ||
    id == PPC_INS_BDNZL ||
    id == PPC_INS_BDNZLA ||
    id == PPC_INS_BDNZLRL ||
    id == PPC_INS_BDNZT ||
    id == PPC_INS_BDNZTA ||
    id == PPC_INS_BDNZTLR ||
    id == PPC_INS_BDNZTL ||
    id == PPC_INS_BDNZTLA ||
    id == PPC_INS_BDNZTLRL ||
    id == PPC_INS_BDNZF ||
    id == PPC_INS_BDNZFA ||
    id == PPC_INS_BDNZFLR ||
    id == PPC_INS_BDNZFL ||
    id == PPC_INS_BDNZFLA ||
    id == PPC_INS_BDNZFLRL ||
    id == PPC_INS_BDZ ||
    id == PPC_INS_BDZA ||
    id == PPC_INS_BDZLR ||
    id == PPC_INS_BDZL ||
    id == PPC_INS_BDZLA ||
    id == PPC_INS_BDZLRL ||
    id == PPC_INS_BDZT ||
    id == PPC_INS_BDZTA ||
    id == PPC_INS_BDZTLR ||
    id == PPC_INS_BDZTL ||
    id == PPC_INS_BDZTLA ||
    id == PPC_INS_BDZTLRL ||
    id == PPC_INS_BDZF ||
    id == PPC_INS_BDZFA ||
    id == PPC_INS_BDZFLR ||
    id == PPC_INS_BDZFL ||
    id == PPC_INS_BDZFLA ||
    id == PPC_INS_BDZFLRL ||
    id == PPC_INS_BCA ||
    id == PPC_INS_BCL ||
    id == PPC_INS_BCLA ||
    id == PPC_INS_BCLRL ||
    id == PPC_INS_BCCTRL
}

/// Every branch opcode, conditional or not.
pub open spec fn is_branch_id(id: u32) -> bool {
    is_conditional_branch_id(id) ||
    id == PPC_INS_B ||
    id == PPC_INS_BA ||
    id == PPC_INS_BL ||
    id == PPC_INS_BLA ||
    id == PPC_INS_BC ||
    id == PPC_INS_BLR ||
    id == PPC_INS_BCTR ||
    id == PPC_INS_BLRL ||
    id == PPC_INS_BCTRL
}

pub fn conditional_branch_id(id: u32) -> (r: bool)
    ensures
        r == is_conditional_branch_id(id),
{
    id == PPC_INS_BT ||
    id == PPC_INS_BTA ||
    id == PPC_INS_BTLR ||
    id == PPC_INS_BTCTR ||
    id == PPC_INS_BTL ||
    id == PPC_INS_BTLA ||
    id == PPC_INS_BTLRL ||
    id == PPC_INS_BTCTRL ||
    id == PPC_INS_BF ||
    id == PPC_INS_BFA ||
    id == PPC_INS_BFLR ||
    id == PPC_INS_BFCTR ||
    id == PPC_INS_BFL ||
    id == PPC_INS_BFLA ||
    id == PPC_INS_BFLRL ||
    id == PPC_INS_BFCTRL ||
    id == PPC_INS_BDNZ ||
    id == PPC_INS_BDNZA ||
    id == PPC_INS_BDNZLR ||
    id == PPC_INS_BDNZL ||
    id == PPC_INS_BDNZLA ||
    id == PPC_INS_BDNZLRL ||
    id == PPC_INS_BDNZT ||
    id == PPC_INS_BDNZTA ||
    id == PPC_INS_BDNZTLR ||
    id == PPC_INS_BDNZTL ||
    id == PPC_INS_BDNZTLA ||
    id == PPC_INS_BDNZTLRL ||
    id == PPC_INS_BDNZF ||
    id == PPC_INS_BDNZFA ||
    id == PPC_INS_BDNZFLR ||
    id == PPC_INS_BDNZFL ||
    id == PPC_INS_BDNZFLA ||
    id == PPC_INS_BDNZFLRL ||
    id == PPC_INS_BDZ ||
    id == PPC_INS_BDZA ||
    id == PPC_INS_BDZLR ||
    id == PPC_INS_BDZL ||
    id == PPC_INS_BDZLA ||
    id == PPC_INS_BDZLRL ||
    id == PPC_INS_BDZT ||
    id == PPC_INS_BDZTA ||
    id == PPC_INS_BDZTLR ||
    id == PPC_INS_BDZTL ||
    id == PPC_INS_BDZTLA ||
    id == PPC_INS_BDZTLRL ||
    id == PPC_INS_BDZF ||
    id == PPC_INS_BDZFA ||
    id == PPC_INS_BDZFLR ||
    id == PPC_INS_BDZFL ||
    id == PPC_INS_BDZFLA ||
    id == PPC_INS_BDZFLRL ||
    id == PPC_INS_BCA ||
    id == PPC_INS_BCL ||
    id == PPC_INS_BCLA ||
    id == PPC_INS_BCLRL ||
    id == PPC_INS_BCCTRL
}

pub fn branch_id(id: u32) -> (r: bool)
    ensures
        r == is_branch_id(id),
{
    conditional_branch_id(id) ||
    id == PPC_INS_B ||
    id == PPC_INS_BA ||
    id == PPC_INS_BL ||
    id == PPC_INS_BLA ||
    id == PPC_INS_BC ||
    id == PPC_INS_BLR ||
    id == PPC_INS_BCTR ||
    id == PPC_INS_BLRL ||
    id == PPC_INS_BCTRL
}

/// The single operand of a PowerPC branch, if it is an immediate; any other
/// operand count gives no target.
pub open spec fn ppc_only_imm(ops: Seq<Operand>) -> Option<i64> {
    if ops.len() != 1 {
        None
    } else {
        match ops[0] {
            Operand::Imm(i) => Some(i),
            _ => None,
        }
    }
}

impl PowerPcInstructionDetail {
    pub fn only_operand_imm(&self) -> (r: Result<Option<i64>, GadgetError>)
        ensures
            r == Ok::<Option<i64>, GadgetError>(ppc_only_imm(self.operands@)),
    {
        if self.operands.len() != 1 {
            return Ok(None);
        }
        match self.operands[0] {
            Operand::Imm(i) => Ok(Some(i)),
            _ => Ok(None),
        }
    }
}

/// Chain policy for 32-bit PowerPC.
pub struct PpcChainArch;

pub open spec fn ppc_detail(insn: Instruction) -> Result<PowerPcInstructionDetail, GadgetError> {
    match insn.detail {
        InstructionDetail::PowerPc(d) => Ok(d),
        _ => Err(GadgetError::UnexpectedDetail),
    }
}

pub open spec fn ppc_key(a: u64) -> LookupKey {
    LookupKey::PowerPc(a)
}

pub open spec fn ppc_next(d: PowerPcInstructionDetail, branch: bool, end: u64) -> Seq<LookupKey> {
    if branch {
        match ppc_only_imm(d.operands@) {
            Some(t) => if d.conditional {
                seq![ppc_key(#[verifier::truncate] (t as u64)), ppc_key(end)]
            } else {
                seq![ppc_key(#[verifier::truncate] (t as u64))]
            },
            None => if d.conditional { seq![ppc_key(end)] } else { seq![] },
        }
    } else {
        seq![ppc_key(end)]
    }
}

impl PpcChainArch {
    fn detail<'a>(&self, insn: &'a Instruction) -> (r: Result<&'a PowerPcInstructionDetail, GadgetError>)
        ensures
            match r {
                Ok(d) => ppc_detail(*insn) == Ok::<PowerPcInstructionDetail, GadgetError>(*d),
                Err(e) => ppc_detail(*insn) == Err::<PowerPcInstructionDetail, GadgetError>(e),
            },
    {
        match &insn.detail {
            InstructionDetail::PowerPc(d) => Ok(d),
            _ => Err(GadgetError::UnexpectedDetail),
        }
    }

    fn is_branch(&self, insn: &Instruction) -> (r: Result<bool, GadgetError>)
        ensures
            r == Ok::<bool, GadgetError>(is_branch_id(insn.id)),
    {
        Ok(branch_id(insn.id))
    }
}

impl ChainArch for PpcChainArch {
    open spec fn conditional_of(&self, insn: Instruction) -> Result<bool, GadgetError> {
        match ppc_detail(insn) {
            Ok(d) => Ok(d.conditional),
            Err(e) => Err(e),
        }
    }

    open spec fn rop_of(&self, insn: Instruction) -> Result<bool, GadgetError> {
        Ok(insn.id == PPC_INS_BLR)
    }

    open spec fn jop_of(&self, insn: Instruction) -> Result<bool, GadgetError> {
        Ok(insn.id == PPC_INS_BCTR || insn.id == PPC_INS_BCTRL)
    }

    open spec fn next_of(&self, insn: Instruction) -> Result<Seq<LookupKey>, GadgetError> {
        match ppc_detail(insn) {
            Ok(d) => Ok(ppc_next(d, is_branch_id(insn.id), end_address(insn))),
            Err(e) => Err(e),
        }
    }

    open spec fn trim_of(&self, insn: Instruction) -> Result<bool, GadgetError> {
        Ok(is_branch_id(insn.id))
    }

    open spec fn key_of(&self, insn: Instruction) -> Result<LookupKey, GadgetError> {
        Ok(LookupKey::PowerPc(insn.address))
    }

    fn is_conditional(&self, insn: &Instruction) -> (r: Result<bool, GadgetError>) {
        let d = self.detail(insn)?;
        Ok(d.conditional)
    }

    fn is_rop(&self, insn: &Instruction) -> (r: Result<bool, GadgetError>) {
        Ok(insn.id == PPC_INS_BLR)
    }

    fn is_jop(&self, insn: &Instruction) -> (r: Result<bool, GadgetError>) {
        Ok(insn.id == PPC_INS_BCTR || insn.id == PPC_INS_BCTRL)
    }

    fn next_insns(&self, insn: &Instruction) -> (r: Result<Vec<LookupKey>, GadgetError>) {
        let end = insn.end();
        let d = self.detail(insn)?;
        let branch = self.is_branch(insn)?;
        let r = if branch {
            let dest = d.only_operand_imm()?;
            if d.conditional {
                match dest {
                    Some(t) => vec![LookupKey::PowerPc(#[verifier::truncate] (t as u64)), LookupKey::PowerPc(end)],
                    None => vec![LookupKey::PowerPc(end)],
                }
            } else {
                match dest {
                    Some(t) => vec![LookupKey::PowerPc(#[verifier::truncate] (t as u64))],
                    None => vec![],
                }
            }
        } else {
            vec![LookupKey::PowerPc(end)]
        };
        assert(r@ =~= ppc_next(*d, branch, end));
        Ok(r)
    }

    fn should_trim(&self, insn: &Instruction) -> (r: Result<bool, GadgetError>) {
        self.is_branch(insn)
    }

    fn get_key(&self, insn: &Instruction) -> (r: Result<LookupKey, GadgetError>) {
        Ok(LookupKey::PowerPc(insn.address))
    }
}


/// A PowerPC detail: conditional exactly for the conditional branch forms.
pub fn ppc_detail_from(id: u32, operands: Vec<Operand>) -> (r: PowerPcInstructionDetail)
    ensures
        r.operands == operands,
        r.conditional == is_conditional_branch_id(id),
{
    let conditional = conditional_branch_id(id);
    PowerPcInstructionDetail { conditional, operands }
}

/// Decoding rules for 32-bit PowerPC.
pub struct PpcDisassemblyArch<'a> {
    pub machine: &'a Machine,
}

impl<'a> DisassemblyArch for PpcDisassemblyArch<'a> {
    open spec fn alignment_spec(&self) -> usize {
        4
    }

    open spec fn max_len_spec(&self) -> usize {
        4
    }

    open spec fn config_spec(&self) -> DecoderConfig {
        DecoderConfig::PowerPc(self.machine.endian)
    }

    open spec fn detail_found(&self, code: Seq<u8>, address: u64) -> bool {
        ppc_parts_of(DecoderConfig::PowerPc(self.machine.endian), code, address) is Some
    }

    open spec fn detail_is(&self, code: Seq<u8>, address: u64, id: u32, d: InstructionDetail) -> bool {
        match ppc_parts_of(DecoderConfig::PowerPc(self.machine.endian), code, address) {
            Some(ops) => match d {
                InstructionDetail::PowerPc(x) => x.operands@ == ops && x.conditional == is_conditional_branch_id(id),
                _ => false,
            },
            None => false,
        }
    }

    open spec fn produces(&self, d: InstructionDetail) -> bool {
        d is PowerPc
    }

    proof fn lemma_detail_produced(&self, code: Seq<u8>, address: u64, id: u32, d: InstructionDetail) {
    }

    proof fn lemma_produced_alike(&self, a: InstructionDetail, b: InstructionDetail) {
    }

    fn alignment(&self) -> (r: usize) {
        4
    }

    fn max_len(&self) -> (r: usize) {
        4
    }

    fn capstone(&self) -> (r: Result<Decoder, GadgetError>) {
        match Decoder::new(DecoderConfig::PowerPc(self.machine.endian)) {
            Ok(d) => Ok(d),
            Err(_) => Err(GadgetError::DecoderSetup),
        }
    }

    fn instruction_details(&self, dec: &Decoder, insn: &DecodedInsn, id: u32) -> (r: Result<InstructionDetail, GadgetError>) {
        match ppc_parts(dec, insn) {
            Some(operands) => Ok(InstructionDetail::PowerPc(ppc_detail_from(id, operands))),
            None => Err(GadgetError::UnexpectedDetail),
        }
    }
}

} // verus!
