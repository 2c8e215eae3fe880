use vstd::prelude::*;

verus! {

/// Options of one search run.
pub struct Args {
    /// Input binaries.
    pub files: Vec<String>,
    /// Maximum number of instructions in a chain.
    pub num: usize,
    /// Search for chains that end in a return.
    pub rop: bool,
    /// Search for chains that end in an indirect branch.
    pub jop: bool,
    /// Pattern that an ending instruction's text must match.
    pub end: Option<String>,
    /// Let conditional instructions take part in chains.
    pub conditional: bool,
    /// Report progress and debugging output.
    pub verbose: bool,
    /// Largest number of chains to display.
    pub limit: Option<usize>,
    /// Show the bytes of each instruction.
    pub bytes: bool,
    /// Keep chains that are equal to one already seen.
    pub duplicates: bool,
    /// Patterns that remove a rendered chain.
    pub excludes: Vec<String>,
    /// Patterns that a rendered chain must all match.
    pub includes: Vec<String>,
}

} // verus!
