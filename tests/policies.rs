use gadget_finder::powerpc::ppc_detail_from;
use gadget_finder::aarch64::{Aarch64ChainArch, ARM64_INS_B, ARM64_INS_BR, ARM64_INS_RET};
use gadget_finder::arch::{ChainArch, LookupKey};
use gadget_finder::arm::{ArmChainArch, ARM_INS_BLX, ARM_INS_BX, ARM_INS_CBZ, ARM_INS_MOV, ARM_INS_POP, ARM_REG_LR, ARM_REG_PC, ARM_REG_SP};
use gadget_finder::error::GadgetError;
use gadget_finder::instruction::{
    Aarch64InstructionDetail, ArmInstructionDetail, ArmOperand, Instruction, InstructionDetail, Mode, Operand,
    PowerPcInstructionDetail, X64InstructionDetail,
};
use gadget_finder::powerpc::{PpcChainArch, PPC_INS_B, PPC_INS_BCTR, PPC_INS_BDNZ, PPC_INS_BLR};
use gadget_finder::x64::{X64ChainArch, X86_INS_CALL, X86_INS_JMP, X86_INS_RET};

fn insn(id: u32, address: u64, length: usize, detail: InstructionDetail) -> Instruction {
    Instruction {
        id,
        name: String::new(),
        length,
        address,
        bytes: vec![0; length],
        mnemonic: String::new(),
        operands: String::new(),
        regs_read: vec![],
        regs_write: vec![],
        groups: vec![],
        detail,
    }
}

fn x64(id: u32, address: u64, length: usize, conditional: bool, operands: Vec<Operand>) -> Instruction {
    insn(id, address, length, InstructionDetail::X64(X64InstructionDetail { conditional, operands }))
}

fn a64(id: u32, address: u64, conditional: bool, operands: Vec<Operand>) -> Instruction {
    insn(id, address, 4, InstructionDetail::Aarch64(Aarch64InstructionDetail { conditional, operands }))
}

fn ppc(id: u32, address: u64, conditional: bool, operands: Vec<Operand>) -> Instruction {
    insn(id, address, 4, InstructionDetail::PowerPc(PowerPcInstructionDetail { conditional, operands }))
}

fn arm(id: u32, address: u64, mode: Mode, conditional: bool, operands: Vec<ArmOperand>) -> Instruction {
    insn(id, address, 4, InstructionDetail::Arm(ArmInstructionDetail { conditional, operands, mode }))
}

#[test]
fn x64_ret_is_rop_and_falls_through() {
    let c = X64ChainArch;
    let i = x64(X86_INS_RET, 0x1001, 1, false, vec![]);
    assert_eq!(c.is_rop(&i), Ok(true));
    assert_eq!(c.is_jop(&i), Ok(false));
    assert_eq!(c.should_trim(&i), Ok(false));
    assert_eq!(c.next_insns(&i), Ok(vec![LookupKey::X64(0x1002)]));
    assert_eq!(c.get_key(&i), Ok(LookupKey::X64(0x1001)));
}

#[test]
fn x64_direct_call_targets_immediate_and_is_trimmed() {
    let c = X64ChainArch;
    let i = x64(X86_INS_CALL, 0x2000, 5, false, vec![Operand::Imm(0x2005)]);
    assert_eq!(c.next_insns(&i), Ok(vec![LookupKey::X64(0x2005)]));
    assert_eq!(c.should_trim(&i), Ok(true));
    assert_eq!(c.is_jop(&i), Ok(false));
}

#[test]
fn x64_conditional_jump_keeps_fall_through() {
    let c = X64ChainArch;
    let i = x64(X86_INS_JMP, 0x10, 2, true, vec![Operand::Imm(0x40)]);
    assert_eq!(c.next_insns(&i), Ok(vec![LookupKey::X64(0x40), LookupKey::X64(0x12)]));
    assert_eq!(c.is_conditional(&i), Ok(true));
}

#[test]
fn x64_indirect_jump_is_jop_without_successors() {
    let c = X64ChainArch;
    let i = x64(X86_INS_JMP, 0x10, 2, false, vec![Operand::Reg(35)]);
    assert_eq!(c.is_jop(&i), Ok(true));
    assert_eq!(c.next_insns(&i), Ok(vec![]));
    assert_eq!(c.should_trim(&i), Ok(false));
}

#[test]
fn x64_jump_with_two_operands_is_an_error() {
    let c = X64ChainArch;
    let i = x64(X86_INS_JMP, 0x10, 2, false, vec![Operand::Reg(1), Operand::Reg(2)]);
    assert_eq!(c.is_jop(&i), Err(GadgetError::UnexpectedOperandCount { found: 2, expected: 1 }));
}

#[test]
fn policy_rejects_other_architecture_detail() {
    let c = X64ChainArch;
    let i = a64(ARM64_INS_RET, 0, false, vec![]);
    assert_eq!(c.is_conditional(&i), Err(GadgetError::UnexpectedDetail));
    let a = ArmChainArch;
    assert_eq!(a.get_key(&i), Err(GadgetError::UnexpectedDetail));
}

#[test]
fn x64_end_wraps_at_top_of_address_space() {
    let i = x64(X86_INS_RET, u64::MAX, 1, false, vec![]);
    assert_eq!(i.end(), 0);
}

#[test]
fn aarch64_policy() {
    let c = Aarch64ChainArch;
    let br = a64(ARM64_INS_BR, 0x3000, false, vec![Operand::Reg(199)]);
    assert_eq!(c.is_jop(&br), Ok(true));
    assert_eq!(c.next_insns(&br), Ok(vec![LookupKey::Aarch64(0x3004)]));
    let b = a64(ARM64_INS_B, 0x3000, true, vec![Operand::Imm(0x3100)]);
    assert_eq!(c.next_insns(&b), Ok(vec![LookupKey::Aarch64(0x3100), LookupKey::Aarch64(0x3004)]));
    assert_eq!(c.should_trim(&b), Ok(true));
    assert_eq!(c.get_key(&b), Ok(LookupKey::Aarch64(0x3000)));
    assert_eq!(c.is_rop(&a64(ARM64_INS_RET, 0, false, vec![])), Ok(true));
}

#[test]
fn powerpc_conditional_branch_has_both_successors() {
    let c = PpcChainArch;
    let bne = ppc(PPC_INS_B, 0x5000, true, vec![Operand::Imm(0x5020)]);
    let next = c.next_insns(&bne).unwrap();
    assert_eq!(next, vec![LookupKey::PowerPc(0x5020), LookupKey::PowerPc(0x5004)]);
    assert!(next.contains(&LookupKey::PowerPc(0x5000 + 4)));
    assert!(next.contains(&LookupKey::PowerPc(0x5020)));
}

#[test]
fn powerpc_branch_forms() {
    let c = PpcChainArch;
    let bdnz = ppc(PPC_INS_BDNZ, 0x100, true, vec![Operand::Reg(3), Operand::Imm(0x80)]);
    assert_eq!(c.next_insns(&bdnz), Ok(vec![LookupKey::PowerPc(0x104)]));
    let b = ppc(PPC_INS_B, 0x100, false, vec![Operand::Imm(0x80)]);
    assert_eq!(c.next_insns(&b), Ok(vec![LookupKey::PowerPc(0x80)]));
    let bctr = ppc(PPC_INS_BCTR, 0x100, false, vec![]);
    assert_eq!(c.next_insns(&bctr), Ok(vec![]));
    assert_eq!(c.is_jop(&bctr), Ok(true));
    assert_eq!(c.should_trim(&bctr), Ok(true));
    let blr = ppc(PPC_INS_BLR, 0x100, false, vec![]);
    assert_eq!(c.is_rop(&blr), Ok(true));
    let add = ppc(2, 0x100, false, vec![]);
    assert_eq!(c.next_insns(&add), Ok(vec![LookupKey::PowerPc(0x104)]));
    assert_eq!(c.should_trim(&add), Ok(false));
}

#[test]
fn powerpc_conditional_flag_follows_branch_form() {
    assert!(ppc_detail_from(PPC_INS_BDNZ, vec![]).conditional);
    assert!(!ppc_detail_from(PPC_INS_B, vec![]).conditional);
    assert!(!ppc_detail_from(gadget_finder::powerpc::PPC_INS_BC, vec![]).conditional);
}

#[test]
fn arm_pop_with_pc_is_rop() {
    let c = ArmChainArch;
    let pop = arm(ARM_INS_POP, 0x100, Mode::Arm, false, vec![ArmOperand::Reg(66), ArmOperand::Reg(ARM_REG_PC)]);
    assert_eq!(c.is_rop(&pop), Ok(true));
    assert_eq!(c.next_insns(&pop), Ok(vec![LookupKey::Arm((Mode::Arm, 0x104))]));
}

#[test]
fn thumb_pop_of_lr_and_pc_has_no_successor() {
    let c = ArmChainArch;
    let pop = arm(ARM_INS_POP, 0x100, Mode::Thumb, false, vec![ArmOperand::Reg(ARM_REG_LR), ArmOperand::Reg(ARM_REG_PC)]);
    assert_eq!(c.next_insns(&pop), Ok(vec![]));
    let pop_sp = arm(ARM_INS_POP, 0x100, Mode::Thumb, false, vec![ArmOperand::Reg(ARM_REG_SP)]);
    assert_eq!(c.next_insns(&pop_sp), Ok(vec![]));
}

#[test]
fn arm_bx_register_other_than_lr_is_jop() {
    let c = ArmChainArch;
    let bx_r1 = arm(ARM_INS_BX, 0x4000, Mode::Arm, false, vec![ArmOperand::Reg(67)]);
    assert_eq!(c.is_jop(&bx_r1), Ok(true));
    let bx_lr = arm(ARM_INS_BX, 0x4000, Mode::Arm, false, vec![ArmOperand::Reg(ARM_REG_LR)]);
    assert_eq!(c.is_jop(&bx_lr), Ok(false));
    let mov_pc = arm(ARM_INS_MOV, 0x4000, Mode::Arm, false, vec![ArmOperand::Reg(ARM_REG_PC), ArmOperand::Reg(67)]);
    assert_eq!(c.is_jop(&mov_pc), Ok(true));
    let mov_r0 = arm(ARM_INS_MOV, 0x4000, Mode::Arm, false, vec![ArmOperand::Reg(66), ArmOperand::Reg(ARM_REG_PC)]);
    assert_eq!(c.is_jop(&mov_r0), Ok(false));
}

#[test]
fn thumb_blx_immediate_switches_to_arm() {
    let c = ArmChainArch;
    let blx = arm(ARM_INS_BLX, 0x3000, Mode::Thumb, false, vec![ArmOperand::Imm(0x4000)]);
    assert_eq!(c.next_insns(&blx), Ok(vec![LookupKey::Arm((Mode::Arm, 0x4000))]));
    assert_eq!(c.get_key(&blx), Ok(LookupKey::Arm((Mode::Thumb, 0x3000))));
    assert_eq!(c.should_trim(&blx), Ok(true));
    let arm_blx = arm(ARM_INS_BLX, 0x3000, Mode::Arm, true, vec![ArmOperand::Imm(0x4000)]);
    assert_eq!(
        c.next_insns(&arm_blx),
        Ok(vec![LookupKey::Arm((Mode::Thumb, 0x4000)), LookupKey::Arm((Mode::Arm, 0x3004))])
    );
}

#[test]
fn thumb_cbz_has_target_and_fall_through() {
    let c = ArmChainArch;
    let cbz = arm(ARM_INS_CBZ, 0x200, Mode::Thumb, false, vec![ArmOperand::Reg(66), ArmOperand::Imm(0x240)]);
    assert_eq!(
        c.next_insns(&cbz),
        Ok(vec![LookupKey::Arm((Mode::Thumb, 0x240)), LookupKey::Arm((Mode::Thumb, 0x204))])
    );
    assert_eq!(c.should_trim(&cbz), Ok(true));
}

#[test]
fn arm_operand_queries() {
    let d = ArmInstructionDetail {
        conditional: false,
        operands: vec![ArmOperand::Reg(66), ArmOperand::Imm(8)],
        mode: Mode::Arm,
    };
    assert_eq!(d.get_imm_operand(1, 2), Ok(Some(8)));
    assert_eq!(d.get_imm_operand(0, 2), Ok(None));
    assert_eq!(d.get_reg_operand(0, 2), Ok(Some(66)));
    assert_eq!(d.get_imm_operand(0, 1), Err(GadgetError::UnexpectedOperandCount { found: 2, expected: 1 }));
    assert_eq!(d.get_reg_operand(2, 2), Err(GadgetError::OperandOutOfBounds { index: 2, count: 2 }));
    assert_eq!(d.contains_pc(), Ok(false));
    assert_eq!(d.contains_sp(), Ok(false));
}

#[test]
fn instruction_equality_ignores_address_but_not_mode() {
    let a = arm(ARM_INS_BX, 0x10, Mode::Arm, false, vec![]);
    let b = arm(ARM_INS_BX, 0x20, Mode::Arm, true, vec![ArmOperand::Reg(1)]);
    let t = arm(ARM_INS_BX, 0x10, Mode::Thumb, false, vec![]);
    assert!(a == b);
    assert!(a != t);
    let x = x64(X86_INS_RET, 0x10, 4, false, vec![]);
    assert!(a != x);
    let mut y = x64(X86_INS_JMP, 0x99, 4, true, vec![Operand::Imm(3)]);
    assert!(x == y);
    y.bytes[0] = 1;
    assert!(x != y);
}

#[test]
fn mode_markers() {
    assert_eq!(Mode::Arm.marker(), "A");
    assert_eq!(Mode::Thumb.marker(), "T");
}

#[test]
fn single_operand_queries() {
    let d = X64InstructionDetail { conditional: false, operands: vec![Operand::Imm(-8)] };
    assert_eq!(d.only_operand_imm(), Ok(Some(-8)));
    let e = Aarch64InstructionDetail { conditional: false, operands: vec![Operand::Reg(7)] };
    assert_eq!(e.only_operand_reg(), Ok(Some(7)));
    assert_eq!(e.only_operand_imm(), Ok(None));
    let f = Aarch64InstructionDetail { conditional: false, operands: vec![] };
    assert_eq!(f.only_operand_reg(), Err(GadgetError::UnexpectedOperandCount { found: 0, expected: 1 }));
    let p = PowerPcInstructionDetail { conditional: true, operands: vec![] };
    assert_eq!(p.only_operand_imm(), Ok(None));
}

#[test]
fn negative_immediate_targets_wrap() {
    let c = X64ChainArch;
    let i = x64(X86_INS_JMP, 0x10, 2, false, vec![Operand::Imm(-2)]);
    assert_eq!(c.next_insns(&i), Ok(vec![LookupKey::X64(u64::MAX - 1)]));
}
