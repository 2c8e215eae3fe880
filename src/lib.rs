//! Multi-architecture gadget discovery: per-architecture control-flow policies,
//! a linear-sweep disassembly driver and a bounded backward chain search.

pub mod error;
pub mod instruction;
pub mod arch;
pub mod x64;
pub mod aarch64;
pub mod arm;
pub mod powerpc;
pub mod machine;
pub mod decoder;
pub mod disassembler;
pub mod index;
pub mod search;
pub mod args;
pub mod chain;
pub mod pattern;
pub mod chains;
pub mod laws;
pub mod colours;
pub mod regex;
