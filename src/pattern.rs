use vstd::prelude::*;
use crate::instruction::Instruction;

verus! {

#[verifier::external_type_specification]
#[verifier::external_body]
pub struct ExRegex(fancy_regex::Regex);

#[verifier::external_type_specification]
#[verifier::external_body]
pub struct ExRegexError(fancy_regex::Error);

/// Whether a pattern compiles.
pub uninterp spec fn pattern_compiles(pattern: Seq<char>) -> bool;

/// Whether a compiled pattern matches somewhere in `text`; none when the
/// matcher gives up.
pub uninterp spec fn pattern_match(pattern: Seq<char>, text: Seq<char>) -> Option<bool>;

/// A compiled end pattern, with the pattern it was compiled from.
pub struct EndPattern {
    re: fancy_regex::Regex,
    pattern: String,
}

impl EndPattern {
    pub closed spec fn source(&self) -> Seq<char> {
        self.pattern@
    }
}

/// The text an end pattern is matched against: "<mnemonic> <operands>".
pub open spec fn text_of(i: Instruction) -> Seq<char> {
    i.mnemonic@ + seq![' '] + i.operands@
}

/// Relies on fancy_regex::Regex::new to compile a pattern, kept with its source.
#[verifier::external_body]
pub(crate) fn compile(pattern: &str) -> (r: Result<EndPattern, fancy_regex::Error>)
    ensures
        r is Ok <==> pattern_compiles(pattern@),
        r matches Ok(p) ==> p.source() == pattern@,
{
    Ok(EndPattern { re: fancy_regex::Regex::new(pattern)?, pattern: pattern.to_string() })
}

/// Relies on fancy_regex::Regex::is_match.
#[verifier::external_body]
pub(crate) fn text_matches(p: &EndPattern, text: &str) -> (r: Result<bool, fancy_regex::Error>)
    ensures
        match r {
            Ok(b) => pattern_match(p.source(), text@) == Some(b),
            Err(_) => pattern_match(p.source(), text@) is None,
        },
{
    p.re.is_match(text)
}

/// Relies on String::push_str: appends `t` to `s`.
#[verifier::external_body]
fn push_text(s: &mut String, t: &str)
    ensures
        final(s)@ == old(s)@ + t@,
{
    s.push_str(t)
}

/// The text of an instruction that an end pattern is matched against.
pub fn instruction_text(i: &Instruction) -> (r: String)
    ensures
        r@ == text_of(*i),
{
    let mut t = String::new();
    push_text(&mut t, i.mnemonic.as_str());
    proof {
        reveal_strlit(" ");
    }
    push_text(&mut t, " ");
    push_text(&mut t, i.operands.as_str());
    t
}

} // verus!
