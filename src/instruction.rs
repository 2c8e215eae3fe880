use vstd::prelude::*;

verus! {

/// Operand of an x86-64, AArch64 or PowerPC instruction, as far as the
/// chain policies look at it.
#[derive(Clone, Copy, Debug, PartialEq, Eq, Structural)]
pub enum Operand {
    Reg(u16),
    Imm(i64),
    Other,
}

/// Operand of an ARM or Thumb instruction.
#[derive(Clone, Copy, Debug, PartialEq, Eq, Structural)]
pub enum ArmOperand {
    Reg(u16),
    Imm(i32),
    Other,
}

/// Instruction-set state of an ARM instruction.
#[derive(Clone, Copy, Debug, PartialEq, Eq, Structural, Hash)]
pub enum Mode {
    Thumb,
    Arm,
}

impl Mode {
    /// One-letter marker used when rendering ARM chains.
    pub fn marker(&self) -> (r: &'static str)
        ensures
            r@ == mode_marker_spec(*self),
    {
        proof {
            reveal_strlit("T");
            reveal_strlit("A");
        }
        match self {
            Mode::Thumb => "T",
            Mode::Arm => "A",
        }
    }
}

pub open spec fn mode_marker_spec(m: Mode) -> Seq<char> {
    match m {
        Mode::Thumb => seq!['T'],
        Mode::Arm => seq!['A'],
    }
}

#[derive(Debug)]
pub struct X64InstructionDetail {
    pub conditional: bool,
    pub operands: Vec<Operand>,
}

#[derive(Debug)]
pub struct Aarch64InstructionDetail {
    pub conditional: bool,
    pub operands: Vec<Operand>,
}

#[derive(Debug)]
pub struct PowerPcInstructionDetail {
    pub conditional: bool,
    pub operands: Vec<Operand>,
}

#[derive(Debug)]
pub struct ArmInstructionDetail {
    pub conditional: bool,
    pub operands: Vec<ArmOperand>,
    pub mode: Mode,
}

/// Architecture-specific part of a decoded instruction.
#[derive(Debug)]
pub enum InstructionDetail {
    Arm(ArmInstructionDetail),
    X64(X64InstructionDetail),
    Aarch64(Aarch64InstructionDetail),
    PowerPc(PowerPcInstructionDetail),
}

/// One decoded instruction.
#[derive(Debug)]
pub struct Instruction {
    pub id: u32,
    pub name: String,
    pub length: usize,
    pub address: u64,
    pub bytes: Vec<u8>,
    pub mnemonic: String,
    pub operands: String,
    pub regs_read: Vec<(u16, String)>,
    pub regs_write: Vec<(u16, String)>,
    pub groups: Vec<(u8, String)>,
    pub detail: InstructionDetail,
}

/// Two details are the same when they belong to the same architecture; ARM
/// details must moreover have been decoded in the same mode.
pub open spec fn same_detail(a: InstructionDetail, b: InstructionDetail) -> bool {
    match (a, b) {
        (InstructionDetail::Arm(x), InstructionDetail::Arm(y)) => x.mode == y.mode,
        (InstructionDetail::X64(_), InstructionDetail::X64(_)) => true,
        (InstructionDetail::Aarch64(_), InstructionDetail::Aarch64(_)) => true,
        (InstructionDetail::PowerPc(_), InstructionDetail::PowerPc(_)) => true,
        _ => false,
    }
}

/// Instructions are identified by their encoding and detail, not by address.
pub open spec fn same_instruction(a: Instruction, b: Instruction) -> bool {
    a.bytes@ == b.bytes@ && same_detail(a.detail, b.detail)
}

/// Address just past the instruction, wrapping at the top of the address space.
pub open spec fn end_address(i: Instruction) -> u64 {
    ((i.address as int + i.length as int) % 0x1_0000_0000_0000_0000) as u64
}

impl Instruction {
    pub fn end(&self) -> (r: u64)
        ensures
            r == end_address(*self),
    {
        let len = self.length as u64;
        let r = self.address.wrapping_add(len);
        r
    }
}

pub fn bytes_equal(a: &Vec<u8>, b: &Vec<u8>) -> (r: bool)
    ensures
        r == (a@ == b@),
{
    if a.len() != b.len() {
        return false;
    }
    let mut i: usize = 0;
    while i < a.len()
        invariant
            a@.len() == b@.len(),
            i <= a@.len(),
            forall|j: int| 0 <= j < i ==> a@[j] == b@[j],
        decreases a@.len() - i,
    {
        if a[i] != b[i] {
            return false;
        }
        i = i + 1;
    }
    assert(a@ =~= b@);
    true
}

impl PartialEq for InstructionDetail {
    fn eq(&self, other: &InstructionDetail) -> (r: bool) {
        match (self, other) {
            (InstructionDetail::Arm(x), InstructionDetail::Arm(y)) => x.mode == y.mode,
            (InstructionDetail::X64(_), InstructionDetail::X64(_)) => true,
            (InstructionDetail::Aarch64(_), InstructionDetail::Aarch64(_)) => true,
            (InstructionDetail::PowerPc(_), InstructionDetail::PowerPc(_)) => true,
            _ => false,
        }
    }
}

impl vstd::std_specs::cmp::PartialEqSpecImpl for InstructionDetail {
    open spec fn obeys_eq_spec() -> bool {
        true
    }

    open spec fn eq_spec(&self, other: &InstructionDetail) -> bool {
        same_detail(*self, *other)
    }
}

impl PartialEq for Instruction {
    fn eq(&self, other: &Instruction) -> (r: bool) {
        self.detail == other.detail && bytes_equal(&self.bytes, &other.bytes)
    }
}

impl vstd::std_specs::cmp::PartialEqSpecImpl for Instruction {
    open spec fn obeys_eq_spec() -> bool {
        true
    }

    open spec fn eq_spec(&self, other: &Instruction) -> bool {
        same_instruction(*self, *other)
    }
}

} // verus!
