use vstd::prelude::*;
use capstone::arch::{ArchDetail, BuildsCapstone, BuildsCapstoneEndian, DetailsArchInsn};
use capstone::arch::arm::ArmOperandType;
use capstone::arch::arm64::Arm64OperandType;
use capstone::arch::ppc::PpcOperand;
use capstone::arch::x86::X86OperandType;
use capstone::{Capstone, OwnedInsn};
use crate::instruction::{ArmOperand, Mode, Operand};
use crate::machine::MachineEndian;

verus! {

#[verifier::external_type_specification]
#[verifier::external_body]
pub struct ExCapstone(capstone::Capstone);

#[verifier::external_type_specification]
#[verifier::external_body]
pub struct ExOwnedInsn<'a>(capstone::OwnedInsn<'a>);

#[verifier::external_type_specification]
#[verifier::external_body]
pub struct ExCapstoneError(capstone::Error);

/// The settings a decoder is built with.
#[derive(Clone, Copy, Debug, PartialEq, Eq, Structural)]
pub enum DecoderConfig {
    /// x86 in 64-bit mode.
    X86,
    /// 32-bit ARM in the given state and endianness.
    Arm(Mode, MachineEndian),
    /// AArch64 in the given endianness.
    Aarch64(MachineEndian),
    /// 32-bit PowerPC in the given endianness.
    PowerPc(MachineEndian),
}

/// What the decoder reads from the first instruction of some bytes.
pub struct RawInsn {
    pub id: u32,
    pub length: usize,
    pub bytes: Seq<u8>,
    pub mnemonic: Option<Seq<char>>,
    pub op_str: Option<Seq<char>>,
}

/// The first instruction that a decoder with settings `config` reads from
/// `code` at `address`, if any.
pub uninterp spec fn decoded(config: DecoderConfig, code: Seq<u8>, address: u64) -> Option<RawInsn>;

/// Whether a decoder with these settings can be built.
pub uninterp spec fn decoder_builds(config: DecoderConfig) -> bool;

/// Name of an instruction identifier.
pub uninterp spec fn insn_name_of(config: DecoderConfig, id: u32) -> Option<Seq<char>>;

/// Name of a register identifier.
pub uninterp spec fn reg_name_of(config: DecoderConfig, reg: u16) -> Option<Seq<char>>;

/// Name of a group identifier.
pub uninterp spec fn group_name_of(config: DecoderConfig, group: u8) -> Option<Seq<char>>;

/// Registers read, registers written and groups of the first instruction.
pub uninterp spec fn detail_lists_of(config: DecoderConfig, code: Seq<u8>, address: u64) -> Option<(Seq<u16>, Seq<u16>, Seq<u8>)>;

/// Operands and XOP condition code of the first x86 instruction.
pub uninterp spec fn x86_parts_of(config: DecoderConfig, code: Seq<u8>, address: u64) -> Option<(Seq<Operand>, u32)>;

/// Operands and condition code of the first AArch64 instruction.
pub uninterp spec fn aarch64_parts_of(config: DecoderConfig, code: Seq<u8>, address: u64) -> Option<(Seq<Operand>, u32)>;

/// Operands and condition code of the first ARM or Thumb instruction.
pub uninterp spec fn arm_parts_of(config: DecoderConfig, code: Seq<u8>, address: u64) -> Option<(Seq<ArmOperand>, u32)>;

/// Operands of the first PowerPC instruction.
pub uninterp spec fn ppc_parts_of(config: DecoderConfig, code: Seq<u8>, address: u64) -> Option<Seq<Operand>>;

pub open spec fn opt_view(o: Option<String>) -> Option<Seq<char>> {
    match o {
        Some(s) => Some(s@),
        None => None,
    }
}


/// A decoder, with the settings it was built with.
pub struct Decoder {
    cs: Capstone,
    config: DecoderConfig,
}

/// One decoded instruction, with the bytes and address it was decoded from.
pub struct DecodedInsn {
    insn: OwnedInsn<'static>,
    config: DecoderConfig,
    code: Vec<u8>,
    address: u64,
}

impl Decoder {
    pub closed spec fn settings(&self) -> DecoderConfig {
        self.config
    }

    /// Builds a decoder with the given settings and operand details.
    pub fn new(config: DecoderConfig) -> (r: Result<Decoder, capstone::Error>)
        ensures
            r is Ok <==> decoder_builds(config),
            r matches Ok(d) ==> d.settings() == config,
    {
        let cs = match config {
            DecoderConfig::X86 => x86_decoder()?,
            DecoderConfig::Arm(mode, e) => arm_decoder(mode, e)?,
            DecoderConfig::Aarch64(e) => aarch64_decoder(e)?,
            DecoderConfig::PowerPc(e) => ppc_decoder(e)?,
        };
        Ok(Decoder { cs, config })
    }
}

impl DecodedInsn {
    pub closed spec fn settings(&self) -> DecoderConfig {
        self.config
    }

    pub closed spec fn code(&self) -> Seq<u8> {
        self.code@
    }

    pub closed spec fn address(&self) -> u64 {
        self.address
    }
}

/// Relies on capstone's builder: an x86 decoder in 64-bit mode with details.
#[verifier::external_body]
fn x86_decoder() -> (r: Result<Capstone, capstone::Error>)
    ensures
        r is Ok <==> decoder_builds(DecoderConfig::X86),
{
    Capstone::new().x86().mode(capstone::arch::x86::ArchMode::Mode64).detail(true).build()
}

/// Relies on capstone's builder: an ARM decoder in the given state and
/// endianness, with details.
#[verifier::external_body]
fn arm_decoder(mode: Mode, endian: MachineEndian) -> (r: Result<Capstone, capstone::Error>)
    ensures
        r is Ok <==> decoder_builds(DecoderConfig::Arm(mode, endian)),
{
    let mode = match mode {
        Mode::Arm => capstone::arch::arm::ArchMode::Arm,
        Mode::Thumb => capstone::arch::arm::ArchMode::Thumb,
    };
    let endian = match endian {
        MachineEndian::Big => capstone::Endian::Big,
        MachineEndian::Little => capstone::Endian::Little,
    };
    Capstone::new().arm().mode(mode).endian(endian).detail(true).build()
}

/// Relies on capstone's builder: an AArch64 decoder in the given
/// endianness, with details.
#[verifier::external_body]
fn aarch64_decoder(endian: MachineEndian) -> (r: Result<Capstone, capstone::Error>)
    ensures
        r is Ok <==> decoder_builds(DecoderConfig::Aarch64(endian)),
{
    let endian = match endian {
        MachineEndian::Big => capstone::Endian::Big,
        MachineEndian::Little => capstone::Endian::Little,
    };
    Capstone::new().arm64().mode(capstone::arch::arm64::ArchMode::Arm).endian(endian).detail(true).build()
}

/// Relies on capstone's builder: a 32-bit PowerPC decoder in the given
/// endianness, with details.
#[verifier::external_body]
fn ppc_decoder(endian: MachineEndian) -> (r: Result<Capstone, capstone::Error>)
    ensures
        r is Ok <==> decoder_builds(DecoderConfig::PowerPc(endian)),
{
    let endian = match endian {
        MachineEndian::Big => capstone::Endian::Big,
        MachineEndian::Little => capstone::Endian::Little,
    };
    Capstone::new().ppc().mode(capstone::arch::ppc::ArchMode::Mode32).endian(endian).detail(true).build()
}

/// Relies on Capstone::disasm_count with a count of one: the first
/// instruction decoded from `code` at `address`, if any, as an owned copy
/// kept with the settings, bytes and address it came from.
#[verifier::external_body]
pub(crate) fn disasm_first(dec: &Decoder, code: &[u8], address: u64) -> (r: Option<DecodedInsn>)
    ensures
        r is Some <==> decoded(dec.settings(), code@, address) is Some,
        r matches Some(h) ==> h.settings() == dec.settings() && h.code() == code@ && h.address() == address,
{
    let insns = dec.cs.disasm_count(code, address, 1).ok()?;
    let first = insns.iter().next()?;
    Some(DecodedInsn { insn: OwnedInsn::from(first), config: dec.config, code: code.to_vec(), address })
}

/// Relies on Insn's accessors id, len, bytes, mnemonic and op_str. The
/// decoder copies an instruction's bytes from the start of its input, and
/// reads at least one byte and no more than it was given.
#[verifier::external_body]
pub(crate) fn insn_fields(h: &DecodedInsn) -> (r: (u32, usize, Vec<u8>, Option<String>, Option<String>))
    ensures
        decoded(h.settings(), h.code(), h.address()) == Some(RawInsn {
            id: r.0,
            length: r.1,
            bytes: r.2@,
            mnemonic: opt_view(r.3),
            op_str: opt_view(r.4),
        }),
        1 <= r.1 <= h.code().len(),
        r.2@ == h.code().subrange(0, r.1 as int),
{
    let i = &h.insn;
    (i.id().0, i.len(), i.bytes().to_vec(), i.mnemonic().map(|s| s.to_string()), i.op_str().map(|s| s.to_string()))
}

/// Relies on Capstone::insn_name: the name of an instruction identifier.
#[verifier::external_body]
pub(crate) fn insn_name(dec: &Decoder, id: u32) -> (r: Option<String>)
    ensures
        opt_view(r) == insn_name_of(dec.settings(), id),
{
    dec.cs.insn_name(capstone::InsnId(id))
}

/// Relies on Capstone::reg_name: the name of a register identifier.
#[verifier::external_body]
pub(crate) fn reg_name(dec: &Decoder, reg: u16) -> (r: Option<String>)
    ensures
        opt_view(r) == reg_name_of(dec.settings(), reg),
{
    dec.cs.reg_name(capstone::RegId(reg))
}

/// Relies on Capstone::group_name: the name of a group identifier.
#[verifier::external_body]
pub(crate) fn group_name(dec: &Decoder, group: u8) -> (r: Option<String>)
    ensures
        opt_view(r) == group_name_of(dec.settings(), group),
{
    dec.cs.group_name(capstone::InsnGroupId(group))
}

/// Relies on Capstone::insn_detail and its regs_read, regs_write and groups.
#[verifier::external_body]
pub(crate) fn detail_lists(dec: &Decoder, h: &DecodedInsn) -> (r: Option<(Vec<u16>, Vec<u16>, Vec<u8>)>)
    requires
        dec.settings() == h.settings(),
    ensures
        match r {
            Some((a, b, c)) => detail_lists_of(h.settings(), h.code(), h.address()) == Some((a@, b@, c@)),
            None => detail_lists_of(h.settings(), h.code(), h.address()) is None,
        },
{
    let d = dec.cs.insn_detail(&h.insn).ok()?;
    Some((
        d.regs_read().iter().map(|r| r.0).collect(),
        d.regs_write().iter().map(|r| r.0).collect(),
        d.groups().iter().map(|g| g.0).collect(),
    ))
}

/// Relies on Capstone::insn_detail and the x86 detail's operands and xop_cc.
#[verifier::external_body]
pub(crate) fn x86_parts(dec: &Decoder, h: &DecodedInsn) -> (r: Option<(Vec<Operand>, u32)>)
    requires
        dec.settings() == h.settings(),
    ensures
        match r {
            Some((ops, cc)) => x86_parts_of(h.settings(), h.code(), h.address()) == Some((ops@, cc)),
            None => x86_parts_of(h.settings(), h.code(), h.address()) is None,
        },
{
    match dec.cs.insn_detail(&h.insn).ok()?.arch_detail() {
        ArchDetail::X86Detail(d) => Some((d.operands().map(|o| match o.op_type {
            X86OperandType::Reg(r) => Operand::Reg(r.0),
            X86OperandType::Imm(i) => Operand::Imm(i),
            _ => Operand::Other,
        }).collect(), d.xop_cc() as u32)),
        _ => None,
    }
}

/// Relies on Capstone::insn_detail and the AArch64 detail's operands and cc.
#[verifier::external_body]
pub(crate) fn aarch64_parts(dec: &Decoder, h: &DecodedInsn) -> (r: Option<(Vec<Operand>, u32)>)
    requires
        dec.settings() == h.settings(),
    ensures
        match r {
            Some((ops, cc)) => aarch64_parts_of(h.settings(), h.code(), h.address()) == Some((ops@, cc)),
            None => aarch64_parts_of(h.settings(), h.code(), h.address()) is None,
        },
{
    match dec.cs.insn_detail(&h.insn).ok()?.arch_detail() {
        ArchDetail::Arm64Detail(d) => Some((d.operands().map(|o| match o.op_type {
            Arm64OperandType::Reg(r) => Operand::Reg(r.0),
            Arm64OperandType::Imm(i) => Operand::Imm(i),
            _ => Operand::Other,
        }).collect(), d.cc() as u32)),
        _ => None,
    }
}

/// Relies on Capstone::insn_detail and the ARM detail's operands and cc.
#[verifier::external_body]
pub(crate) fn arm_parts(dec: &Decoder, h: &DecodedInsn) -> (r: Option<(Vec<ArmOperand>, u32)>)
    requires
        dec.settings() == h.settings(),
    ensures
        match r {
            Some((ops, cc)) => arm_parts_of(h.settings(), h.code(), h.address()) == Some((ops@, cc)),
            None => arm_parts_of(h.settings(), h.code(), h.address()) is None,
        },
{
    match dec.cs.insn_detail(&h.insn).ok()?.arch_detail() {
        ArchDetail::ArmDetail(d) => Some((d.operands().map(|o| match o.op_type {
            ArmOperandType::Reg(r) => ArmOperand::Reg(r.0),
            ArmOperandType::Imm(i) => ArmOperand::Imm(i),
            _ => ArmOperand::Other,
        }).collect(), d.cc() as u32)),
        _ => None,
    }
}

/// Relies on Capstone::insn_detail and the PowerPC detail's operands.
#[verifier::external_body]
pub(crate) fn ppc_parts(dec: &Decoder, h: &DecodedInsn) -> (r: Option<Vec<Operand>>)
    requires
        dec.settings() == h.settings(),
    ensures
        match r {
            Some(ops) => ppc_parts_of(h.settings(), h.code(), h.address()) == Some(ops@),
            None => ppc_parts_of(h.settings(), h.code(), h.address()) is None,
        },
{
    match dec.cs.insn_detail(&h.insn).ok()?.arch_detail() {
        ArchDetail::PpcDetail(d) => Some(d.operands().map(|o| match o {
            PpcOperand::Reg(r) => Operand::Reg(r.0),
            PpcOperand::Imm(i) => Operand::Imm(i),
            _ => Operand::Other,
        }).collect()),
        _ => None,
    }
}

/// Relies on num_cpus::get, which always returns at least one.
#[verifier::external_body]
pub(crate) fn cpu_count() -> (r: usize)
    ensures
        r >= 1,
{
    num_cpus::get()
}

} // verus!
