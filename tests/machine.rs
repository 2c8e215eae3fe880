use gadget_finder::error::GadgetError;
use gadget_finder::machine::{Machine, MachineArch, MachineBits, MachineEndian, EM_AARCH64, EM_ARM, EM_PPC, EM_X86_64};

#[test]
fn supported_machines() {
    assert_eq!(
        Machine::from_elf(EM_X86_64, true, true, 0),
        Ok(Machine { endian: MachineEndian::Little, bits: MachineBits::B64, arch: MachineArch::X86_64 })
    );
    assert_eq!(
        Machine::from_elf(EM_PPC, false, false, 0),
        Ok(Machine { endian: MachineEndian::Big, bits: MachineBits::B32, arch: MachineArch::PowerPc })
    );
    assert_eq!(
        Machine::from_elf(EM_AARCH64, true, false, 0),
        Ok(Machine { endian: MachineEndian::Big, bits: MachineBits::B64, arch: MachineArch::Aarch64 })
    );
    assert_eq!(
        Machine::from_elf(EM_ARM, false, true, 0),
        Ok(Machine { endian: MachineEndian::Little, bits: MachineBits::B32, arch: MachineArch::Arm })
    );
}

#[test]
fn be8_arm_code_is_little_endian() {
    assert_eq!(
        Machine::from_elf(EM_ARM, false, false, 0x800000),
        Ok(Machine { endian: MachineEndian::Little, bits: MachineBits::B32, arch: MachineArch::Arm })
    );
    assert_eq!(Machine::from_elf(EM_ARM, false, true, 0x800000), Err(GadgetError::InvalidBe8Endian));
}

#[test]
fn unsupported_combinations() {
    assert_eq!(Machine::from_elf(EM_PPC, false, true, 0), Err(GadgetError::UnsupportedEndian { machine: EM_PPC }));
    assert_eq!(Machine::from_elf(EM_PPC, true, false, 0), Err(GadgetError::UnsupportedBits { machine: EM_PPC }));
    assert_eq!(Machine::from_elf(EM_ARM, true, true, 0), Err(GadgetError::UnsupportedBits { machine: EM_ARM }));
    assert_eq!(Machine::from_elf(EM_X86_64, true, false, 0), Err(GadgetError::UnsupportedEndian { machine: EM_X86_64 }));
    assert_eq!(Machine::from_elf(EM_AARCH64, false, true, 0), Err(GadgetError::UnsupportedBits { machine: EM_AARCH64 }));
    assert_eq!(Machine::from_elf(8, false, true, 0), Err(GadgetError::UnknownMachine { machine: 8 }));
}

#[test]
fn elf_machine_numbers() {
    assert_eq!(EM_PPC, goblin::elf::header::EM_PPC);
    assert_eq!(EM_ARM, goblin::elf::header::EM_ARM);
    assert_eq!(EM_X86_64, goblin::elf::header::EM_X86_64);
    assert_eq!(EM_AARCH64, goblin::elf::header::EM_AARCH64);
}
