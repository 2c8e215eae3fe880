use vstd::prelude::*;
use crate::args::Args;
use crate::chain::Chain;
use crate::colours::{ColourRange, ColourType, Colours};
use crate::instruction::Instruction;
use vstd::utf8::encode_utf8;

verus! {

/// Post-processing of rendered chains by the include and exclude patterns
/// of a run.
pub struct RegexFilter<'a> {
    pub args: &'a Args,
}


/// Where the text of instruction `k` starts when the instructions are
/// rendered as "<mnemonic> <operands>" joined by "; ".
pub open spec fn text_offset(ins: Seq<&Instruction>, k: int) -> int
    decreases k,
{
    if k <= 0 {
        0
    } else {
        text_offset(ins, k - 1) + encode_utf8(ins[k - 1].mnemonic@).len() + 1
            + encode_utf8(ins[k - 1].operands@).len() + 2
    }
}

proof fn lemma_text_offset_grows(ins: Seq<&Instruction>, j: int, k: int)
    requires
        0 <= j <= k,
    ensures
        text_offset(ins, j) <= text_offset(ins, k),
    decreases k - j,
{
    if j < k {
        lemma_text_offset_grows(ins, j, k - 1);
    }
}

impl<'a> RegexFilter<'a> {
    pub fn new(args: &'a Args) -> (r: RegexFilter<'a>)
        ensures
            r.args == args,
    {
        RegexFilter { args }
    }

    /// Colours of the rendered text of a chain: for each instruction, its
    /// mnemonic and then its operands, past the space between them and the
    /// "; " that follows.
    pub fn get_instruction_colours(&self, chain: &Chain) -> (r: Colours)
        requires
            text_offset(chain.instructions@, chain.instructions@.len() as int) <= usize::MAX,
        ensures
            r.ranges@.len() == 2 * chain.instructions@.len(),
            forall|k: int| 0 <= k < chain.instructions@.len() ==> {
                let start = text_offset(chain.instructions@, k);
                let m = encode_utf8(chain.instructions@[k].mnemonic@).len();
                let o = encode_utf8(chain.instructions@[k].operands@).len();
                &&& #[trigger] r.ranges@[2 * k] == (ColourRange {
                    start: start as usize,
                    end: (start + m) as usize,
                    colour: Some(ColourType::Mnemonic),
                })
                &&& r.ranges@[2 * k + 1] == (ColourRange {
                    start: (start + m + 1) as usize,
                    end: (start + m + 1 + o) as usize,
                    colour: Some(ColourType::Operand),
                })
            },
    {
        let ghost ins = chain.instructions@;
        let ghost n = ins.len() as int;
        let mut ranges: Vec<ColourRange> = Vec::new();
        let mut offset: usize = 0;
        let mut i: usize = 0;
        while i < chain.instructions.len()
            invariant
                ins == chain.instructions@,
                n == ins.len(),
                text_offset(ins, n) <= usize::MAX,
                i <= n,
                offset == text_offset(ins, i as int),
                ranges@.len() == 2 * i,
                forall|k: int| 0 <= k < i ==> {
                    let start = text_offset(ins, k);
                    let m = encode_utf8(ins[k].mnemonic@).len();
                    let o = encode_utf8(ins[k].operands@).len();
                    &&& #[trigger] ranges@[2 * k] == (ColourRange {
                        start: start as usize,
                        end: (start + m) as usize,
                        colour: Some(ColourType::Mnemonic),
                    })
                    &&& ranges@[2 * k + 1] == (ColourRange {
                        start: (start + m + 1) as usize,
                        end: (start + m + 1 + o) as usize,
                        colour: Some(ColourType::Operand),
                    })
                },
            decreases n - i,
        {
            proof {
                lemma_text_offset_grows(ins, i + 1, n);
            }
            let insn = chain.instructions[i];
            let mnemonic_end = offset + insn.mnemonic.as_str().len();
            ranges.push(ColourRange { start: offset, end: mnemonic_end, colour: Some(ColourType::Mnemonic) });
            let operands_start = mnemonic_end + 1;
            let operands_end = operands_start + insn.operands.as_str().len();
            ranges.push(ColourRange { start: operands_start, end: operands_end, colour: Some(ColourType::Operand) });
            offset = operands_end + 2;
            i = i + 1;
        }
        Colours::new(ranges)
    }
}

} // verus!
