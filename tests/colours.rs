use gadget_finder::args::Args;
use gadget_finder::chain::Chain;
use gadget_finder::colours::{ColourRange, ColourType, Colours};
use gadget_finder::instruction::{Instruction, InstructionDetail, X64InstructionDetail};
use gadget_finder::regex::RegexFilter;

fn range(start: usize, end: usize, colour: Option<ColourType>) -> ColourRange {
    ColourRange { start, end, colour }
}

fn text_insn(mnemonic: &str, operands: &str) -> Instruction {
    Instruction {
        id: 0,
        name: String::new(),
        length: 1,
        address: 0,
        bytes: vec![0],
        mnemonic: mnemonic.to_string(),
        operands: operands.to_string(),
        regs_read: vec![],
        regs_write: vec![],
        groups: vec![],
        detail: InstructionDetail::X64(X64InstructionDetail { conditional: false, operands: vec![] }),
    }
}

#[test]
fn empty_ranges() {
    assert!(range(3, 3, None).is_empty());
    assert!(range(4, 3, None).is_empty());
    assert!(!range(3, 4, None).is_empty());
}

#[test]
fn max_is_end_of_last_range() {
    assert_eq!(Colours::new(vec![]).max(), 0);
    let c = Colours::new(vec![range(0, 9, None), range(2, 5, Some(ColourType::Operand))]);
    assert_eq!(c.max(), 5);
}

#[test]
fn first_containing_range_gives_the_colour() {
    let c = Colours::new(vec![
        range(0, 3, Some(ColourType::Mnemonic)),
        range(2, 6, Some(ColourType::Operand)),
        range(6, 8, None),
        range(6, 9, Some(ColourType::Regex(2))),
    ]);
    assert_eq!(c.colour(2), Some(ColourType::Mnemonic));
    assert_eq!(c.colour(3), Some(ColourType::Operand));
    assert_eq!(c.colour(7), None);
    assert_eq!(c.colour(8), Some(ColourType::Regex(2)));
    assert_eq!(c.colour(20), None);
}

#[test]
fn background_lays_front_over_back() {
    let front = Colours::new(vec![range(2, 4, Some(ColourType::Regex(0)))]);
    let back = Colours::new(vec![range(0, 3, Some(ColourType::Mnemonic)), range(4, 7, Some(ColourType::Operand))]);
    let merged = front.background(back);
    assert_eq!(
        merged.ranges,
        vec![
            range(0, 2, Some(ColourType::Mnemonic)),
            range(2, 4, Some(ColourType::Regex(0))),
            range(4, 7, Some(ColourType::Operand)),
        ]
    );
}

#[test]
fn background_keeps_uncoloured_gaps() {
    let front = Colours::new(vec![]);
    let back = Colours::new(vec![range(0, 1, Some(ColourType::Mnemonic)), range(3, 5, Some(ColourType::Operand))]);
    assert_eq!(
        front.background(back).ranges,
        vec![range(0, 1, Some(ColourType::Mnemonic)), range(1, 3, None), range(3, 5, Some(ColourType::Operand))]
    );
    let back = Colours::new(vec![range(2, 3, Some(ColourType::Operand))]);
    assert_eq!(
        Colours::new(vec![]).background(back).ranges,
        vec![range(0, 2, None), range(2, 3, Some(ColourType::Operand))]
    );
    assert!(Colours::new(vec![]).background(Colours::new(vec![])).ranges.is_empty());
}

#[test]
fn instruction_colours_follow_rendered_text() {
    let a = text_insn("pop", "rax");
    let b = text_insn("ret", "");
    let name = String::from("bin");
    let chain = Chain { instructions: vec![&a, &b], file_name: &name };
    let args = Args {
        files: vec![],
        num: 6,
        rop: true,
        jop: false,
        end: None,
        conditional: false,
        verbose: false,
        limit: None,
        bytes: false,
        duplicates: false,
        excludes: vec![],
        includes: vec![],
    };
    let filter = RegexFilter::new(&args);
    assert!(std::ptr::eq(filter.args, &args));
    let colours = filter.get_instruction_colours(&chain);
    assert_eq!(
        colours.ranges,
        vec![
            range(0, 3, Some(ColourType::Mnemonic)),
            range(4, 7, Some(ColourType::Operand)),
            range(9, 12, Some(ColourType::Mnemonic)),
            range(13, 13, Some(ColourType::Operand)),
        ]
    );
}
