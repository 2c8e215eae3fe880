use vstd::prelude::*;

verus! {

/// Failures that the library reports instead of panicking.
#[derive(Clone, Copy, Debug, PartialEq, Eq, Structural)]
pub enum GadgetError {
    /// A policy was handed an instruction decoded for another architecture.
    UnexpectedDetail,
    /// An operand query found a different number of operands than it needs.
    UnexpectedOperandCount { found: usize, expected: usize },
    /// An operand query asked for a position past the operand count.
    OperandOutOfBounds { index: usize, count: usize },
    /// The decoder could not be constructed.
    DecoderSetup,
    /// No instruction could be decoded at an offset.
    Undecodable,
    /// The end-of-chain pattern could not be compiled or evaluated.
    Pattern,
    /// The container names an architecture with an unsupported endianness.
    UnsupportedEndian { machine: u16 },
    /// The container names an architecture with an unsupported word size.
    UnsupportedBits { machine: u16 },
    /// A BE8 ARM image that does not carry a big-endian data flag.
    InvalidBe8Endian,
    /// The container names a machine that no policy handles.
    UnknownMachine { machine: u16 },
}

} // verus!
