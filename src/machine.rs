use vstd::prelude::*;
use crate::aarch64::{Aarch64ChainArch, Aarch64DisassemblyArch};
use crate::arm::{ArmChainArch, ArmDisassemblyArch, ThumbDisassemblyArch};
use crate::args::Args;
use crate::chain::Chain;
use crate::chains::{Chains, found_by_pattern, model_of, pattern_ok, policy_total, search_fails};
use crate::decoder::{DecoderConfig, decoder_builds};
use crate::disassembler::{DisassemblyArch, Disassembler, Section, has_code, sections_fit, sweep_ok};
use crate::error::GadgetError;
use crate::instruction::{Instruction, Mode};
use crate::powerpc::{PpcChainArch, PpcDisassemblyArch};
use crate::x64::{X64ChainArch, X64DisassemblyArch};

verus! {

#[derive(Clone, Copy, Debug, Hash, PartialEq, Eq, Structural)]
pub enum MachineEndian {
    Big,
    Little,
}

#[derive(Clone, Copy, Debug, Hash, PartialEq, Eq, Structural)]
pub enum MachineBits {
    B32,
    B64,
}

#[derive(Clone, Copy, Debug, Hash, PartialEq, Eq, Structural)]
pub enum MachineArch {
    PowerPc,
    Arm,
    Aarch64,
    X86_64,
}

/// What a binary runs on: instruction endianness, word size, architecture.
#[derive(Clone, Copy, Debug, Hash, PartialEq, Eq, Structural)]
pub struct Machine {
    pub endian: MachineEndian,
    pub bits: MachineBits,
    pub arch: MachineArch,
}

/// ELF machine numbers of the supported architectures.
pub const EM_PPC: u16 = 20;
pub const EM_ARM: u16 = 40;
pub const EM_X86_64: u16 = 62;
pub const EM_AARCH64: u16 = 183;

/// ARM ELF header flag of a BE8 image: big-endian data, little-endian code.
pub const ELF_ARM_BE8_FLAG: u32 = 0x800000;

/// The machine described by an ELF header, or why it is not supported.
pub open spec fn machine_of(e_machine: u16, is_64: bool, little_endian: bool, e_flags: u32) -> Result<Machine, GadgetError> {
    let endian = if little_endian { MachineEndian::Little } else { MachineEndian::Big };
    let bits = if is_64 { MachineBits::B64 } else { MachineBits::B32 };
    if e_machine == EM_PPC {
        if little_endian {
            Err(GadgetError::UnsupportedEndian { machine: e_machine })
        } else if is_64 {
            Err(GadgetError::UnsupportedBits { machine: e_machine })
        } else {
            Ok(Machine { endian, bits, arch: MachineArch::PowerPc })
        }
    } else if e_machine == EM_ARM {
        if e_flags & ELF_ARM_BE8_FLAG != 0 && little_endian {
            Err(GadgetError::InvalidBe8Endian)
        } else if is_64 {
            Err(GadgetError::UnsupportedBits { machine: e_machine })
        } else if e_flags & ELF_ARM_BE8_FLAG != 0 {
            Ok(Machine { endian: MachineEndian::Little, bits, arch: MachineArch::Arm })
        } else {
            Ok(Machine { endian, bits, arch: MachineArch::Arm })
        }
    } else if e_machine == EM_X86_64 {
        if !little_endian {
            Err(GadgetError::UnsupportedEndian { machine: e_machine })
        } else {
            Ok(Machine { endian, bits, arch: MachineArch::X86_64 })
        }
    } else if e_machine == EM_AARCH64 {
        if !is_64 {
            Err(GadgetError::UnsupportedBits { machine: e_machine })
        } else {
            Ok(Machine { endian, bits, arch: MachineArch::Aarch64 })
        }
    } else {
        Err(GadgetError::UnknownMachine { machine: e_machine })
    }
}

impl Machine {
    /// Derives the machine from the ELF header fields: machine number,
    /// class, data encoding and flags.
    pub fn from_elf(e_machine: u16, is_64: bool, little_endian: bool, e_flags: u32) -> (r: Result<Machine, GadgetError>)
        ensures
            r == machine_of(e_machine, is_64, little_endian, e_flags),
    {
        let mut endian = if little_endian { MachineEndian::Little } else { MachineEndian::Big };
        let bits = if is_64 { MachineBits::B64 } else { MachineBits::B32 };
        let arch = if e_machine == EM_PPC {
            if endian != MachineEndian::Big {
                return Err(GadgetError::UnsupportedEndian { machine: e_machine });
            }
            if bits != MachineBits::B32 {
                return Err(GadgetError::UnsupportedBits { machine: e_machine });
            }
            MachineArch::PowerPc
        } else if e_machine == EM_ARM {
            if e_flags & ELF_ARM_BE8_FLAG != 0 {
                match endian {
                    MachineEndian::Little => {
                        return Err(GadgetError::InvalidBe8Endian);
                    },
                    MachineEndian::Big => {
                        endian = MachineEndian::Little;
                    },
                }
            }
            if bits != MachineBits::B32 {
                return Err(GadgetError::UnsupportedBits { machine: e_machine });
            }
            MachineArch::Arm
        } else if e_machine == EM_X86_64 {
            if endian != MachineEndian::Little {
                return Err(GadgetError::UnsupportedEndian { machine: e_machine });
            }
            MachineArch::X86_64
        } else if e_machine == EM_AARCH64 {
            if bits != MachineBits::B64 {
                return Err(GadgetError::UnsupportedBits { machine: e_machine });
            }
            MachineArch::Aarch64
        } else {
            return Err(GadgetError::UnknownMachine { machine: e_machine });
        };
        Ok(Machine { endian, bits, arch })
    }
}


/// `v` is what sweeping `sections` with `arch` gives, for some range count.
pub open spec fn swept_by<A: DisassemblyArch>(arch: A, sections: Seq<Section>, v: Seq<Instruction>) -> bool {
    exists|chunks: usize| chunks >= 1 && #[trigger] sweep_ok(arch, sections, chunks, v)
}

/// `v` is the sweep of `sections` for machine `m`; ARM code is swept in
/// ARM state and then in Thumb state.
pub open spec fn machine_sweep(m: Machine, sections: Seq<Section>, v: Seq<Instruction>) -> bool {
    match m.arch {
        MachineArch::X86_64 => swept_by(X64DisassemblyArch, sections, v),
        MachineArch::Aarch64 => swept_by(Aarch64DisassemblyArch { machine: &m }, sections, v),
        MachineArch::PowerPc => swept_by(PpcDisassemblyArch { machine: &m }, sections, v),
        MachineArch::Arm => exists|a: Seq<Instruction>, t: Seq<Instruction>|
            v == a + t && #[trigger] swept_by(ArmDisassemblyArch { machine: &m }, sections, a)
                && #[trigger] swept_by(ThumbDisassemblyArch { machine: &m }, sections, t),
    }
}

/// A decoder that machine `m` needs cannot be built, and there is code to sweep.
pub open spec fn machine_sweep_fails(m: Machine, sections: Seq<Section>) -> bool {
    &&& has_code(sections)
    &&& match m.arch {
        MachineArch::X86_64 => !decoder_builds(DecoderConfig::X86),
        MachineArch::Aarch64 => !decoder_builds(DecoderConfig::Aarch64(m.endian)),
        MachineArch::PowerPc => !decoder_builds(DecoderConfig::PowerPc(m.endian)),
        MachineArch::Arm => !decoder_builds(DecoderConfig::Arm(Mode::Arm, m.endian))
            || !decoder_builds(DecoderConfig::Arm(Mode::Thumb, m.endian)),
    }
}

/// Every policy question of machine `m`'s policy has an answer for every instruction.
pub open spec fn policy_total_on(arch: MachineArch, insns: Seq<Instruction>) -> bool {
    match arch {
        MachineArch::X86_64 => policy_total(X64ChainArch, insns),
        MachineArch::Aarch64 => policy_total(Aarch64ChainArch, insns),
        MachineArch::PowerPc => policy_total(PpcChainArch, insns),
        MachineArch::Arm => policy_total(ArmChainArch, insns),
    }
}

/// `chains` is the result of searching `insns` with the policy of `arch`.
pub open spec fn searched(arch: MachineArch, args: Args, insns: Seq<Instruction>, file_name: String, chains: Seq<Chain>) -> bool {
    match arch {
        MachineArch::X86_64 => found_by_pattern(args, X64ChainArch, insns, file_name, chains),
        MachineArch::Aarch64 => found_by_pattern(args, Aarch64ChainArch, insns, file_name, chains),
        MachineArch::PowerPc => found_by_pattern(args, PpcChainArch, insns, file_name, chains),
        MachineArch::Arm => found_by_pattern(args, ArmChainArch, insns, file_name, chains),
    }
}

/// Some question of machine `m`'s policy that the search asks has no answer.
pub open spec fn search_fails_on(arch: MachineArch, args: Args, insns: Seq<Instruction>) -> bool {
    match arch {
        MachineArch::X86_64 => search_fails(model_of(args, X64ChainArch, insns), args.rop, args.jop),
        MachineArch::Aarch64 => search_fails(model_of(args, Aarch64ChainArch, insns), args.rop, args.jop),
        MachineArch::PowerPc => search_fails(model_of(args, PpcChainArch, insns), args.rop, args.jop),
        MachineArch::Arm => search_fails(model_of(args, ArmChainArch, insns), args.rop, args.jop),
    }
}

impl Machine {
    /// Disassembles the sections with this machine's decoding rules; ARM
    /// code is swept once in ARM state and once in Thumb state.
    pub fn disasemble(&self, sections: &Vec<Section>) -> (r: Result<Vec<Instruction>, GadgetError>)
        requires
            sections_fit(sections@),
        ensures
            r is Err <==> machine_sweep_fails(*self, sections@),
            r matches Ok(v) ==> machine_sweep(*self, sections@, v@),
    {
        match self.arch {
            MachineArch::Arm => {
                let arm_config = ArmDisassemblyArch { machine: self };
                let mut insns = Disassembler::disassemble(&arm_config, sections)?;
                let thumb_config = ThumbDisassemblyArch { machine: self };
                let mut thumb_insns = Disassembler::disassemble(&thumb_config, sections)?;
                let ghost a = insns@;
                let ghost t = thumb_insns@;
                insns.append(&mut thumb_insns);
                assert(swept_by(arm_config, sections@, a));
                assert(swept_by(thumb_config, sections@, t));
                assert(insns@ == a + t);
                Ok(insns)
            },
            MachineArch::X86_64 => {
                let arch = X64DisassemblyArch;
                let r = Disassembler::disassemble(&arch, sections);
                proof {
                    if let Ok(ref v) = r {
                        assert(swept_by(arch, sections@, v@));
                    }
                }
                r
            },
            MachineArch::Aarch64 => {
                let arch = Aarch64DisassemblyArch { machine: self };
                let r = Disassembler::disassemble(&arch, sections);
                proof {
                    if let Ok(ref v) = r {
                        assert(swept_by(arch, sections@, v@));
                    }
                }
                r
            },
            MachineArch::PowerPc => {
                let arch = PpcDisassemblyArch { machine: self };
                let r = Disassembler::disassemble(&arch, sections);
                proof {
                    if let Ok(ref v) = r {
                        assert(swept_by(arch, sections@, v@));
                    }
                }
                r
            },
        }
    }

    /// Searches the instructions with this machine's chain policy.
    pub fn get_chains<'a>(&self, args: &Args, file_name: &'a String, insns: &'a Vec<Instruction>) -> (r: Result<Vec<Chain<'a>>, GadgetError>)
        requires
            args.num >= 1,
        ensures
            r matches Ok(v) ==> searched(self.arch, *args, insns@, *file_name, v@),
            r is Err ==> !pattern_ok(*args, insns@) || !policy_total_on(self.arch, insns@),
            !pattern_ok(*args, insns@) || search_fails_on(self.arch, *args, insns@) ==> r is Err,
    {
        let c = match self.arch {
            MachineArch::Arm => Chains::new(args, &ArmChainArch, file_name, insns)?,
            MachineArch::X86_64 => Chains::new(args, &X64ChainArch, file_name, insns)?,
            MachineArch::Aarch64 => Chains::new(args, &Aarch64ChainArch, file_name, insns)?,
            MachineArch::PowerPc => Chains::new(args, &PpcChainArch, file_name, insns)?,
        };
        Ok(c.into_vec())
    }
}

} // verus!
