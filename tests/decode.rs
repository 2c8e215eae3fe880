use capstone::arch::arm::{ArmCC, ArmInsn, ArmReg};
use capstone::arch::arm64::{Arm64CC, Arm64Insn};
use capstone::arch::ppc::PpcInsn;
use capstone::arch::x86::{X86Insn, X86XopCC};
use gadget_finder::aarch64::Aarch64DisassemblyArch;
use gadget_finder::args::Args;
use gadget_finder::chain::{dedup_chains, Chain};
use gadget_finder::disassembler::{DisassemblyArch, Disassembler, Section};
use gadget_finder::instruction::{Instruction, InstructionDetail};
use gadget_finder::machine::{Machine, MachineArch, MachineBits, MachineEndian};
use gadget_finder::x64::X64DisassemblyArch;

fn args(num: usize, rop: bool, jop: bool) -> Args {
    Args {
        files: vec![],
        num,
        rop,
        jop,
        end: None,
        conditional: false,
        verbose: false,
        limit: None,
        bytes: false,
        duplicates: false,
        excludes: vec![],
        includes: vec![],
    }
}

fn x86_machine() -> Machine {
    Machine { endian: MachineEndian::Little, bits: MachineBits::B64, arch: MachineArch::X86_64 }
}

fn a64_machine() -> Machine {
    Machine { endian: MachineEndian::Little, bits: MachineBits::B64, arch: MachineArch::Aarch64 }
}

fn sweep_x86(base: usize, bytes: &[u8]) -> Vec<Instruction> {
    let sections = vec![Section { base, bytes }];
    Disassembler::disassemble_in_chunks(&X64DisassemblyArch, &sections, 1).unwrap()
}

fn sweep_a64(m: &Machine, base: usize, bytes: &[u8]) -> Vec<Instruction> {
    let sections = vec![Section { base, bytes }];
    Disassembler::disassemble_in_chunks(&Aarch64DisassemblyArch { machine: m }, &sections, 1).unwrap()
}

fn text(c: &Chain) -> Vec<(String, String)> {
    c.instructions.iter().map(|i| (i.mnemonic.clone(), i.operands.clone())).collect()
}

#[test]
fn capstone_identifiers_match() {
    assert_eq!(X86Insn::X86_INS_RET as u32, gadget_finder::x64::X86_INS_RET);
    assert_eq!(X86Insn::X86_INS_JMP as u32, gadget_finder::x64::X86_INS_JMP);
    assert_eq!(X86Insn::X86_INS_CALL as u32, gadget_finder::x64::X86_INS_CALL);
    assert_eq!(X86XopCC::X86_XOP_CC_INVALID as u32, gadget_finder::x64::X86_XOP_CC_INVALID);
    assert_eq!(X86XopCC::X86_XOP_CC_FALSE as u32, gadget_finder::x64::X86_XOP_CC_FALSE);
    assert_eq!(Arm64Insn::ARM64_INS_RET as u32, gadget_finder::aarch64::ARM64_INS_RET);
    assert_eq!(Arm64Insn::ARM64_INS_BR as u32, gadget_finder::aarch64::ARM64_INS_BR);
    assert_eq!(Arm64Insn::ARM64_INS_BLR as u32, gadget_finder::aarch64::ARM64_INS_BLR);
    assert_eq!(Arm64Insn::ARM64_INS_B as u32, gadget_finder::aarch64::ARM64_INS_B);
    assert_eq!(Arm64Insn::ARM64_INS_BL as u32, gadget_finder::aarch64::ARM64_INS_BL);
    assert_eq!(Arm64CC::ARM64_CC_AL as u32, gadget_finder::aarch64::ARM64_CC_AL);
    assert_eq!(Arm64CC::ARM64_CC_INVALID as u32, gadget_finder::aarch64::ARM64_CC_INVALID);
    assert_eq!(ArmInsn::ARM_INS_B as u32, gadget_finder::arm::ARM_INS_B);
    assert_eq!(ArmInsn::ARM_INS_BL as u32, gadget_finder::arm::ARM_INS_BL);
    assert_eq!(ArmInsn::ARM_INS_BX as u32, gadget_finder::arm::ARM_INS_BX);
    assert_eq!(ArmInsn::ARM_INS_BLX as u32, gadget_finder::arm::ARM_INS_BLX);
    assert_eq!(ArmInsn::ARM_INS_BXNS as u32, gadget_finder::arm::ARM_INS_BXNS);
    assert_eq!(ArmInsn::ARM_INS_BLXNS as u32, gadget_finder::arm::ARM_INS_BLXNS);
    assert_eq!(ArmInsn::ARM_INS_BXJ as u32, gadget_finder::arm::ARM_INS_BXJ);
    assert_eq!(ArmInsn::ARM_INS_CBZ as u32, gadget_finder::arm::ARM_INS_CBZ);
    assert_eq!(ArmInsn::ARM_INS_CBNZ as u32, gadget_finder::arm::ARM_INS_CBNZ);
    assert_eq!(ArmInsn::ARM_INS_LDM as u32, gadget_finder::arm::ARM_INS_LDM);
    assert_eq!(ArmInsn::ARM_INS_LDMDA as u32, gadget_finder::arm::ARM_INS_LDMDA);
    assert_eq!(ArmInsn::ARM_INS_LDMDB as u32, gadget_finder::arm::ARM_INS_LDMDB);
    assert_eq!(ArmInsn::ARM_INS_LDMIB as u32, gadget_finder::arm::ARM_INS_LDMIB);
    assert_eq!(ArmInsn::ARM_INS_MOV as u32, gadget_finder::arm::ARM_INS_MOV);
    assert_eq!(ArmInsn::ARM_INS_POP as u32, gadget_finder::arm::ARM_INS_POP);
    assert_eq!(ArmReg::ARM_REG_LR as u16, gadget_finder::arm::ARM_REG_LR);
    assert_eq!(ArmReg::ARM_REG_PC as u16, gadget_finder::arm::ARM_REG_PC);
    assert_eq!(ArmReg::ARM_REG_SP as u16, gadget_finder::arm::ARM_REG_SP);
    assert_eq!(ArmCC::ARM_CC_AL as u32, gadget_finder::arm::ARM_CC_AL);
    assert_eq!(ArmCC::ARM_CC_INVALID as u32, gadget_finder::arm::ARM_CC_INVALID);
    assert_eq!(PpcInsn::PPC_INS_B as u32, gadget_finder::powerpc::PPC_INS_B);
    assert_eq!(PpcInsn::PPC_INS_BC as u32, gadget_finder::powerpc::PPC_INS_BC);
    assert_eq!(PpcInsn::PPC_INS_BLR as u32, gadget_finder::powerpc::PPC_INS_BLR);
    assert_eq!(PpcInsn::PPC_INS_BCTR as u32, gadget_finder::powerpc::PPC_INS_BCTR);
    assert_eq!(PpcInsn::PPC_INS_BCTRL as u32, gadget_finder::powerpc::PPC_INS_BCTRL);
    assert_eq!(PpcInsn::PPC_INS_BDNZ as u32, gadget_finder::powerpc::PPC_INS_BDNZ);
    assert_eq!(PpcInsn::PPC_INS_BT as u32, gadget_finder::powerpc::PPC_INS_BT);
    assert_eq!(PpcInsn::PPC_INS_BF as u32, gadget_finder::powerpc::PPC_INS_BF);
    assert_eq!(PpcInsn::PPC_INS_BCCTRL as u32, gadget_finder::powerpc::PPC_INS_BCCTRL);
    assert_eq!(PpcInsn::PPC_INS_BDZFLRL as u32, gadget_finder::powerpc::PPC_INS_BDZFLRL);
}

#[test]
fn sweep_decodes_every_offset() {
    let bytes = [0x58u8, 0xc3];
    let insns = sweep_x86(0x1000, &bytes);
    let mut found: Vec<(u64, String)> = insns.iter().map(|i| (i.address, i.mnemonic.clone())).collect();
    found.sort();
    assert_eq!(found, vec![(0x1000, String::from("pop")), (0x1001, String::from("ret"))]);
    let pop = insns.iter().find(|i| i.address == 0x1000).unwrap();
    assert_eq!(pop.operands, "rax");
    assert_eq!(pop.length, 1);
    assert_eq!(pop.bytes, vec![0x58]);
    assert!(matches!(pop.detail, InstructionDetail::X64(_)));
}

#[test]
fn sweep_skips_undecodable_bytes_and_respects_chunks() {
    let bytes = [0xe8u8, 0x00, 0x00, 0x00, 0x00, 0x58, 0xc3];
    let whole = sweep_x86(0x2000, &bytes);
    assert!(whole.iter().any(|i| i.address == 0x2000 && i.mnemonic == "call"));
    let sections = vec![Section { base: 0x2000, bytes: &bytes[..] }];
    let split = Disassembler::disassemble_in_chunks(&X64DisassemblyArch, &sections, 7).unwrap();
    assert!(!split.iter().any(|i| i.address == 0x2000));
    assert!(split.iter().any(|i| i.address == 0x2005 && i.mnemonic == "pop"));
}

#[test]
fn decoding_twice_gives_equal_instructions() {
    let cs = X64DisassemblyArch.capstone().unwrap();
    let bytes = [0x48u8, 0x89, 0xd8, 0xc3];
    let a = Disassembler::disassemble_insn(&X64DisassemblyArch, &cs, 0x10, &bytes).unwrap();
    let b = Disassembler::disassemble_insn(&X64DisassemblyArch, &cs, 0x10, &bytes).unwrap();
    assert!(a == b);
    assert_eq!(a.mnemonic, "mov");
    assert_eq!(a.operands, b.operands);
    assert_eq!(a.length, 3);
    let c = Disassembler::disassemble_insn(&X64DisassemblyArch, &cs, 0x99, &bytes).unwrap();
    assert!(a == c);
    assert_eq!(c.address, 0x99);
    assert!(Disassembler::disassemble_insn(&X64DisassemblyArch, &cs, 0x10, &[0x0f]).is_err());
}

#[test]
fn x64_minimal_rop_at_section_start_has_no_reportable_chain() {
    let bytes = [0x58u8, 0xc3];
    let insns = sweep_x86(0x1000, &bytes);
    let name = String::from("bin");
    let chains = x86_machine().get_chains(&args(2, true, false), &name, &insns).unwrap();
    assert!(chains.is_empty());
}

#[test]
fn x64_minimal_rop_after_a_predecessor() {
    let bytes = [0x90u8, 0x58, 0xc3];
    let insns = sweep_x86(0x0fff, &bytes);
    let name = String::from("bin");
    let chains = x86_machine().get_chains(&args(3, true, false), &name, &insns).unwrap();
    assert_eq!(chains.len(), 1);
    assert_eq!(chains[0].address(), 0x1000);
    assert_eq!(
        text(&chains[0]),
        vec![(String::from("pop"), String::from("rax")), (String::from("ret"), String::new())]
    );
}

#[test]
fn x64_direct_call_prefix_is_trimmed() {
    let bytes = [0xe8u8, 0x00, 0x00, 0x00, 0x00, 0x58, 0xc3];
    let insns = sweep_x86(0x2000, &bytes);
    let name = String::from("bin");
    let chains = x86_machine().get_chains(&args(3, true, false), &name, &insns).unwrap();
    assert_eq!(chains.len(), 1);
    assert_eq!(chains[0].address(), 0x2005);
    assert_eq!(
        text(&chains[0]),
        vec![(String::from("pop"), String::from("rax")), (String::from("ret"), String::new())]
    );
}

#[test]
fn aarch64_indirect_jop_at_section_start_has_no_reportable_chain() {
    let m = a64_machine();
    let bytes = [0xe0u8, 0x03, 0x00, 0xaa, 0x00, 0x00, 0x1f, 0xd6];
    let insns = sweep_a64(&m, 0x2ffc, &bytes);
    assert_eq!(insns.len(), 2);
    let name = String::from("bin");
    let chains = m.get_chains(&args(2, false, true), &name, &insns).unwrap();
    assert!(chains.is_empty());
}

#[test]
fn aarch64_indirect_jop_after_a_predecessor() {
    let m = a64_machine();
    let bytes = [0x1fu8, 0x20, 0x03, 0xd5, 0xe0, 0x03, 0x00, 0xaa, 0x00, 0x00, 0x1f, 0xd6];
    let insns = sweep_a64(&m, 0x2ff8, &bytes);
    let name = String::from("bin");
    let chains = m.get_chains(&args(3, false, true), &name, &insns).unwrap();
    assert_eq!(chains.len(), 1);
    assert_eq!(chains[0].address(), 0x2ffc);
    assert_eq!(
        text(&chains[0]),
        vec![(String::from("mov"), String::from("x0, x0")), (String::from("br"), String::from("x0"))]
    );
}

#[test]
fn identical_gadgets_in_two_binaries_collapse_without_duplicates() {
    let bytes = [0x90u8, 0x58, 0xc3];
    let first = sweep_x86(0x0fff, &bytes);
    let second = sweep_x86(0x7fff, &bytes);
    let name = String::from("a.out");
    let m = x86_machine();
    let mut chains = m.get_chains(&args(3, true, false), &name, &first).unwrap();
    chains.extend(m.get_chains(&args(3, true, false), &name, &second).unwrap());
    assert_eq!(chains.len(), 2);
    assert_eq!(dedup_chains(chains).len(), 1);
}

#[test]
fn machine_sweeps_arm_in_both_states() {
    let m = Machine { endian: MachineEndian::Little, bits: MachineBits::B32, arch: MachineArch::Arm };
    let mut bytes = vec![0u8; 256];
    bytes[..4].copy_from_slice(&[0x11, 0xff, 0x2f, 0xe1]);
    let sections = vec![Section { base: 0x4000, bytes: &bytes[..] }];
    let insns = m.disasemble(&sections).unwrap();
    let arm = insns
        .iter()
        .find(|i| i.address == 0x4000 && matches!(&i.detail, InstructionDetail::Arm(d) if d.mode == gadget_finder::instruction::Mode::Arm))
        .unwrap();
    assert_eq!(arm.mnemonic, "bx");
    assert_eq!(arm.operands, "r1");
}

#[test]
fn empty_sections_add_nothing() {
    let bytes = [0x90u8, 0x58, 0xc3];
    let empty: [u8; 0] = [];
    let with_empty = vec![Section { base: 0x500, bytes: &empty[..] }, Section { base: 0x0fff, bytes: &bytes[..] }];
    let a = Disassembler::disassemble_in_chunks(&X64DisassemblyArch, &with_empty, 1).unwrap();
    let b = sweep_x86(0x0fff, &bytes);
    let mut ka: Vec<u64> = a.iter().map(|i| i.address).collect();
    let mut kb: Vec<u64> = b.iter().map(|i| i.address).collect();
    ka.sort();
    kb.sort();
    assert_eq!(ka, kb);
    let only_empty = vec![Section { base: 0x500, bytes: &empty[..] }];
    assert!(Disassembler::disassemble_in_chunks(&X64DisassemblyArch, &only_empty, 1).unwrap().is_empty());
}

#[test]
fn decoded_bytes_are_the_input_prefix() {
    let cs = X64DisassemblyArch.capstone().unwrap();
    let bytes = [0x58u8, 0xc3, 0x90];
    let i = Disassembler::disassemble_insn(&X64DisassemblyArch, &cs, 0x40, &bytes).unwrap();
    assert_eq!(i.length, 1);
    assert_eq!(i.bytes, vec![0x58]);
    assert_eq!(i.name, "pop");
}
