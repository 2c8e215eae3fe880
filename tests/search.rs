use gadget_finder::arch::LookupKey;
use gadget_finder::args::Args;
use gadget_finder::arm::{ArmChainArch, ARM_INS_BLX, ARM_INS_BX, ARM_INS_MOV};
use gadget_finder::chain::{dedup_chains, Chain};
use gadget_finder::chains::Chains;
use gadget_finder::instruction::{ArmInstructionDetail, ArmOperand, Instruction, InstructionDetail, Mode, Operand, X64InstructionDetail};
use gadget_finder::machine::{Machine, MachineArch, MachineBits, MachineEndian};
use gadget_finder::x64::{X64ChainArch, X86_INS_CALL, X86_INS_JMP, X86_INS_RET};

fn insn(id: u32, address: u64, length: usize, detail: InstructionDetail) -> Instruction {
    Instruction {
        id,
        name: String::new(),
        length,
        address,
        bytes: vec![id as u8; length],
        mnemonic: String::new(),
        operands: String::new(),
        regs_read: vec![],
        regs_write: vec![],
        groups: vec![],
        detail,
    }
}

fn x64(id: u32, address: u64, length: usize, operands: Vec<Operand>) -> Instruction {
    insn(id, address, length, InstructionDetail::X64(X64InstructionDetail { conditional: false, operands }))
}

fn x64_cond(id: u32, address: u64, length: usize) -> Instruction {
    insn(id, address, length, InstructionDetail::X64(X64InstructionDetail { conditional: true, operands: vec![] }))
}

fn arm(id: u32, address: u64, mode: Mode, operands: Vec<ArmOperand>) -> Instruction {
    insn(id, address, 4, InstructionDetail::Arm(ArmInstructionDetail { conditional: false, operands, mode }))
}

fn args(num: usize, rop: bool, jop: bool) -> Args {
    Args {
        files: vec![],
        num,
        rop,
        jop,
        end: None,
        conditional: false,
        verbose: false,
        limit: None,
        bytes: false,
        duplicates: false,
        excludes: vec![],
        includes: vec![],
    }
}

fn heads(chains: &[Chain]) -> Vec<u64> {
    let mut v: Vec<u64> = chains.iter().map(|c| c.address()).collect();
    v.sort();
    v
}

/// A straight line of one-byte instructions ending in a return at `0x100 + n`.
fn line(n: u64) -> Vec<Instruction> {
    let mut v: Vec<Instruction> = (0..n).map(|k| x64(1, 0x100 + k, 1, vec![])).collect();
    v.push(x64(X86_INS_RET, 0x100 + n, 1, vec![]));
    v
}

#[test]
fn straight_line_reports_chain_below_bound() {
    let insns = line(5);
    let name = String::from("bin");
    let chains = Chains::new(&args(3, true, false), &X64ChainArch, &name, &insns).unwrap().into_vec();
    assert_eq!(chains.len(), 1);
    let c = &chains[0];
    assert_eq!(c.instructions.len(), 2);
    assert_eq!(c.address(), 0x104);
    assert_eq!(c.instructions[1].address, 0x105);
    assert_eq!(c.file_name, &name);
}

#[test]
fn chain_stops_where_predecessors_end() {
    let insns = line(2);
    let name = String::from("bin");
    let chains = Chains::new(&args(6, true, false), &X64ChainArch, &name, &insns).unwrap().into_vec();
    assert_eq!(heads(&chains), vec![0x101]);
    assert_eq!(chains[0].instructions.len(), 2);
}

#[test]
fn bound_of_one_yields_nothing() {
    let insns = line(5);
    let name = String::from("bin");
    let chains = Chains::new(&args(1, true, false), &X64ChainArch, &name, &insns).unwrap().into_vec();
    assert!(chains.is_empty());
}

#[test]
fn terminator_without_predecessor_yields_nothing() {
    let insns = vec![x64(X86_INS_RET, 0x100, 1, vec![])];
    let name = String::from("bin");
    let chains = Chains::new(&args(6, true, false), &X64ChainArch, &name, &insns).unwrap().into_vec();
    assert!(chains.is_empty());
}

#[test]
fn conditional_instructions_are_left_out_unless_asked() {
    let insns = vec![
        x64(1, 0x100, 1, vec![]),
        x64_cond(2, 0x101, 1),
        x64(1, 0x102, 1, vec![]),
        x64(X86_INS_RET, 0x103, 1, vec![]),
    ];
    let name = String::from("bin");
    let chains = Chains::new(&args(6, true, false), &X64ChainArch, &name, &insns).unwrap().into_vec();
    assert!(chains.is_empty());
    let mut a = args(6, true, false);
    a.conditional = true;
    let chains = Chains::new(&a, &X64ChainArch, &name, &insns).unwrap().into_vec();
    assert_eq!(heads(&chains), vec![0x101]);
    assert_eq!(chains[0].instructions.len(), 3);
}

#[test]
fn leading_direct_call_is_trimmed() {
    let insns = vec![
        x64(1, 0x0fe, 1, vec![]),
        x64(1, 0x0ff, 1, vec![]),
        x64(X86_INS_CALL, 0x100, 5, vec![Operand::Imm(0x200)]),
        x64(1, 0x200, 1, vec![]),
        x64(X86_INS_RET, 0x201, 1, vec![]),
    ];
    let name = String::from("bin");
    let chains = Chains::new(&args(5, true, false), &X64ChainArch, &name, &insns).unwrap().into_vec();
    assert_eq!(heads(&chains), vec![0x0ff]);
    assert_eq!(chains[0].instructions.len(), 4);
    let chains = Chains::new(&args(4, true, false), &X64ChainArch, &name, &insns).unwrap().into_vec();
    assert_eq!(heads(&chains), vec![0x200]);
    assert_eq!(chains[0].instructions.len(), 2);
}

#[test]
fn indirect_jump_ends_jop_chains_only() {
    let insns = vec![
        x64(1, 0x100, 1, vec![]),
        x64(1, 0x101, 1, vec![]),
        x64(X86_INS_JMP, 0x102, 2, vec![Operand::Reg(35)]),
    ];
    let name = String::from("bin");
    let rop = Chains::new(&args(3, true, false), &X64ChainArch, &name, &insns).unwrap().into_vec();
    assert!(rop.is_empty());
    let jop = Chains::new(&args(3, false, true), &X64ChainArch, &name, &insns).unwrap().into_vec();
    assert_eq!(heads(&jop), vec![0x101]);
}

#[test]
fn one_chain_per_head_address() {
    let insns = vec![
        x64(1, 0x100, 1, vec![]),
        x64(1, 0x101, 1, vec![]),
        x64(X86_INS_JMP, 0x102, 2, vec![Operand::Imm(0x104)]),
        x64(1, 0x103, 1, vec![]),
        x64(X86_INS_RET, 0x104, 1, vec![]),
    ];
    let name = String::from("bin");
    let chains = Chains::new(&args(4, true, false), &X64ChainArch, &name, &insns).unwrap().into_vec();
    let h = heads(&chains);
    let mut d = h.clone();
    d.dedup();
    assert_eq!(h, d);
}

#[test]
fn end_pattern_selects_terminators() {
    let mut insns = line(3);
    insns[3].mnemonic = String::from("ret");
    insns[2].mnemonic = String::from("nop");
    let mut a = args(3, false, false);
    a.end = Some(String::from("^ret"));
    let name = String::from("bin");
    let chains = Chains::new(&a, &X64ChainArch, &name, &insns).unwrap().into_vec();
    assert_eq!(heads(&chains), vec![0x102]);
    a.end = Some(String::from("(unclosed"));
    assert!(Chains::new(&a, &X64ChainArch, &name, &insns).is_err());
}

#[test]
fn from_hits_uses_given_pattern_outcomes() {
    let insns = line(3);
    let name = String::from("bin");
    let hits = vec![false, false, true, false];
    let chains = Chains::from_hits(&args(3, false, false), &X64ChainArch, &name, &insns, &hits).unwrap().into_vec();
    assert_eq!(heads(&chains), vec![0x101]);
}

#[test]
fn interworking_chain_is_marked_mixed() {
    let insns = vec![
        arm(ARM_INS_MOV, 0x2ff8, Mode::Thumb, vec![]),
        arm(ARM_INS_MOV, 0x2ffc, Mode::Thumb, vec![]),
        arm(ARM_INS_BLX, 0x3000, Mode::Thumb, vec![ArmOperand::Imm(0x4000)]),
        arm(ARM_INS_BX, 0x4000, Mode::Arm, vec![ArmOperand::Reg(67)]),
        arm(ARM_INS_MOV, 0x3ffc, Mode::Thumb, vec![]),
    ];
    let name = String::from("bin");
    let chains = Chains::new(&args(4, false, true), &ArmChainArch, &name, &insns).unwrap().into_vec();
    assert_eq!(heads(&chains), vec![0x2ffc]);
    let c = &chains[0];
    assert_eq!(c.instructions.len(), 3);
    assert_eq!(c.instructions[2].address, 0x4000);
    assert_eq!(c.mode_marker(), Some((Mode::Thumb, true)));
    let key = gadget_finder::arch::ChainArch::get_key(&ArmChainArch, c.instructions[2]).unwrap();
    assert_eq!(key, LookupKey::Arm((Mode::Arm, 0x4000)));
}

#[test]
fn single_mode_chain_is_not_marked_mixed() {
    let a = arm(ARM_INS_MOV, 0x10, Mode::Arm, vec![]);
    let b = arm(ARM_INS_BX, 0x14, Mode::Arm, vec![]);
    let name = String::from("bin");
    let c = Chain { instructions: vec![&a, &b], file_name: &name };
    assert_eq!(c.mode_marker(), Some((Mode::Arm, false)));
    let x = x64(X86_INS_RET, 0, 1, vec![]);
    let d = Chain { instructions: vec![&x], file_name: &name };
    assert_eq!(d.mode_marker(), None);
    let e = Chain { instructions: vec![], file_name: &name };
    assert_eq!(e.address(), 0);
}

#[test]
fn equal_chains_from_files_of_one_name_collapse() {
    let first = vec![x64(1, 0x100, 1, vec![]), x64(X86_INS_RET, 0x101, 1, vec![])];
    let second = vec![x64(1, 0x900, 1, vec![]), x64(X86_INS_RET, 0x901, 1, vec![])];
    let name = String::from("a.out");
    let other = String::from("b.out");
    let c1 = Chain { instructions: vec![&first[0], &first[1]], file_name: &name };
    let c2 = Chain { instructions: vec![&second[0], &second[1]], file_name: &name };
    let c3 = Chain { instructions: vec![&second[0], &second[1]], file_name: &other };
    assert!(c1 == c2);
    assert!(c1 != c3);
    let kept = dedup_chains(vec![c1, c2, c3]);
    assert_eq!(kept.len(), 2);
    assert_eq!(kept[0].address(), 0x100);
    assert_eq!(kept[1].file_name, &other);
}

#[test]
fn machine_dispatch_finds_chains() {
    let m = Machine { endian: MachineEndian::Little, bits: MachineBits::B64, arch: MachineArch::X86_64 };
    let insns = line(5);
    let name = String::from("bin");
    let chains = m.get_chains(&args(3, true, false), &name, &insns).unwrap();
    assert_eq!(heads(&chains), vec![0x104]);
}

#[test]
fn end_pattern_text_is_mnemonic_space_operands() {
    let mut i = x64(1, 0, 1, vec![]);
    i.mnemonic = String::from("pop");
    i.operands = String::from("rax");
    assert_eq!(gadget_finder::pattern::instruction_text(&i), "pop rax");
}

#[test]
fn policy_errors_make_the_search_fail() {
    let insns = vec![
        x64(1, 0x100, 1, vec![]),
        arm(ARM_INS_MOV, 0x101, Mode::Arm, vec![]),
        x64(X86_INS_RET, 0x102, 1, vec![]),
    ];
    let name = String::from("bin");
    assert!(Chains::new(&args(3, true, false), &X64ChainArch, &name, &insns).is_err());
}
