//! The single-line parser: one line of assembly straight to an instruction, with `li`
//! kept as a `LoadImmediate` of a full 32-bit value.
use vstd::prelude::*;

use crate::assembler::parser::{
    fmt_itype, fmt_li, fmt_r3, itype_args, li_args, r3_args, split_line, ParsedView,
};
use crate::instruction::Instruction;
use crate::text::{
    after_head_word, all_ws, chars_of, head_word, lemma_trim_ignores_padding, operands, range_eq_str,
    trim,
};

verus! {

#[derive(Debug, PartialEq, Eq, Structural)]
pub enum ParseError {
    InvalidFormat,
    UnknownInstruction,
    InvalidArgument,
}

/// What one line parses to: `li rd, imm`, `add rd, rs, rt`, `addi rs, rt, imm` (note the
/// operand order) and `syscall`.
pub open spec fn parse_line_spec(input: Seq<char>) -> Result<Instruction, ParseError> {
    let t = trim(input);
    let m = head_word(t);
    let ops = operands(after_head_word(t));
    if m == "li"@ {
        match li_args(ops) {
            Some(a) => Ok(Instruction::LoadImmediate { rd: a.0, imm: a.1 }),
            None => Err(ParseError::InvalidArgument),
        }
    } else if m == "add"@ {
        match r3_args(ops) {
            Some(a) => Ok(Instruction::Add { rd: a.0, rs: a.1, rt: a.2 }),
            None => Err(ParseError::InvalidArgument),
        }
    } else if m == "addi"@ {
        match itype_args(ops) {
            Some(a) => Ok(Instruction::Addi { rs: a.0, rt: a.1, imm: a.2 }),
            None => Err(ParseError::InvalidArgument),
        }
    } else if m == "syscall"@ {
        if ops.len() == 0 {
            Ok(Instruction::Syscall)
        } else {
            Err(ParseError::InvalidArgument)
        }
    } else {
        Err(ParseError::UnknownInstruction)
    }
}

/// Parse one line, e.g. `li $t0, 12`.
pub fn parse_line(input: &str) -> (r: Result<Instruction, ParseError>)
    ensures
        r == parse_line_spec(input@),
{
    let v = chars_of(input);
    let n = v.len();
    let a = v.as_slice();
    assert(a@.subrange(0, n as int) =~= input@);
    let (l, k, r) = split_line(a, 0, n);
    let ghost ops = operands(after_head_word(trim(input@)));
    if range_eq_str(a, l, k, "li") {
        match fmt_li(a, &r, Ghost(ops)) {
            Some((rd, imm)) => Ok(Instruction::LoadImmediate { rd, imm }),
            None => Err(ParseError::InvalidArgument),
        }
    } else if range_eq_str(a, l, k, "add") {
        match fmt_r3(a, &r, Ghost(ops)) {
            Some((rd, rs, rt)) => Ok(Instruction::Add { rd, rs, rt }),
            None => Err(ParseError::InvalidArgument),
        }
    } else if range_eq_str(a, l, k, "addi") {
        match fmt_itype(a, &r, Ghost(ops)) {
            Some((rs, rt, imm)) => Ok(Instruction::Addi { rs, rt, imm }),
            None => Err(ParseError::InvalidArgument),
        }
    } else if range_eq_str(a, l, k, "syscall") {
        if r.len() == 0 {
            Ok(Instruction::Syscall)
        } else {
            Err(ParseError::InvalidArgument)
        }
    } else {
        Err(ParseError::UnknownInstruction)
    }
}

/// Whitespace around a line does not change how it parses.
pub proof fn lemma_parse_line_ignores_padding(pre: Seq<char>, line: Seq<char>, post: Seq<char>)
    requires
        all_ws(pre),
        all_ws(post),
    ensures
        parse_line_spec(pre + line + post) == parse_line_spec(line),
{
    lemma_trim_ignores_padding(pre, line, post);
}

/// The two parsers agree on `add`: a line this parser reads as an `add` reads as the same
/// `add` in the assembler's parser, and a malformed `add` is rejected by both.
pub proof fn lemma_agrees_on_add(input: Seq<char>)
    requires
        head_word(trim(input)) == "add"@,
    ensures
        match parse_line_spec(input) {
            Ok(inst) => crate::assembler::parser::parse_line_spec(input) == Ok::<
                ParsedView,
                crate::assembler::parser::ParseErrorView,
            >(ParsedView::Ready(inst)) && inst is Add,
            Err(e) => e == ParseError::InvalidArgument
                && crate::assembler::parser::parse_line_spec(input)
                == Err::<ParsedView, crate::assembler::parser::ParseErrorView>(
                crate::assembler::parser::ParseErrorView::InvalidArgument,
            ),
        },
{
    reveal_strlit("add");
    reveal_strlit("li");
    assert("add"@.len() == 3 && "li"@.len() == 2);
}

} // verus!
