//! Parsing one line of assembly, and resolving branch and jump labels.
use std::collections::HashMap;
use vstd::prelude::*;

use crate::instruction::Instruction;
use crate::register::{self, parse_register, register_spec};
use crate::text::{
    after_head_word, chars_of, find_whitespace, head_word, immediate_spec, operand_ranges,
    operands, parse_immediate, range_eq_str, string_from_range, trim, trim_range, all_ws,
    lemma_trim_ignores_padding,
};

verus! {

/// A parsed line: either a finished instruction, or a branch or jump whose label still has
/// to be resolved to an address.
#[derive(Debug, PartialEq)]
pub enum Parsed {
    /// add, addi, li, syscall...
    Ready(Instruction),
    Branch { kind: Cond, rs: usize, rt: usize, label: String },
    Jump { label: String },
}

#[derive(Debug, PartialEq, Eq, Clone, Copy, Structural)]
pub enum Cond {
    Eq,
    Ne,
}

#[derive(Debug, PartialEq)]
pub enum ParseError {
    UnknownInstruction,
    InvalidArgument,
    UndefinedLabel { label: String },
    BranchOutOfRange { here: u32, target: u32, delta: i64 },
}

/// A parsed line with its label as characters.
pub ghost enum ParsedView {
    Ready(Instruction),
    Branch { kind: Cond, rs: usize, rt: usize, label: Seq<char> },
    Jump { label: Seq<char> },
}

/// A parse error with its label as characters.
pub ghost enum ParseErrorView {
    UnknownInstruction,
    InvalidArgument,
    UndefinedLabel { label: Seq<char> },
    BranchOutOfRange { here: u32, target: u32, delta: i64 },
}

impl View for Parsed {
    type V = ParsedView;

    open spec fn view(&self) -> ParsedView {
        match self {
            Parsed::Ready(i) => ParsedView::Ready(*i),
            Parsed::Branch { kind, rs, rt, label } => ParsedView::Branch {
                kind: *kind,
                rs: *rs,
                rt: *rt,
                label: label@,
            },
            Parsed::Jump { label } => ParsedView::Jump { label: label@ },
        }
    }
}

impl View for ParseError {
    type V = ParseErrorView;

    open spec fn view(&self) -> ParseErrorView {
        match self {
            ParseError::UnknownInstruction => ParseErrorView::UnknownInstruction,
            ParseError::InvalidArgument => ParseErrorView::InvalidArgument,
            ParseError::UndefinedLabel { label } => ParseErrorView::UndefinedLabel {
                label: label@,
            },
            ParseError::BranchOutOfRange { here, target, delta } => ParseErrorView::BranchOutOfRange {
                here: *here,
                target: *target,
                delta: *delta,
            },
        }
    }
}

pub open spec fn parse_result_view(r: Result<Parsed, ParseError>) -> Result<
    ParsedView,
    ParseErrorView,
> {
    match r {
        Ok(p) => Ok(p@),
        Err(e) => Err(e@),
    }
}

// ---------------------------------------------------------------------------
// Operand formats.

/// Three registers.
pub open spec fn r3_args(ops: Seq<Seq<char>>) -> Option<(usize, usize, usize)> {
    if ops.len() == 3 && register_spec(ops[0]) is Some && register_spec(ops[1]) is Some
        && register_spec(ops[2]) is Some {
        Some((register_spec(ops[0])->0, register_spec(ops[1])->0, register_spec(ops[2])->0))
    } else {
        None
    }
}

/// Two registers.
pub open spec fn r2_args(ops: Seq<Seq<char>>) -> Option<(usize, usize)> {
    if ops.len() == 2 && register_spec(ops[0]) is Some && register_spec(ops[1]) is Some {
        Some((register_spec(ops[0])->0, register_spec(ops[1])->0))
    } else {
        None
    }
}

/// Two registers and an immediate, cut to 16 bits.
pub open spec fn itype_args(ops: Seq<Seq<char>>) -> Option<(usize, usize, i16)> {
    if ops.len() == 3 && register_spec(ops[0]) is Some && register_spec(ops[1]) is Some
        && immediate_spec(ops[2]) is Some {
        Some((register_spec(ops[0])->0, register_spec(ops[1])->0, immediate_spec(ops[2])->0 as i16))
    } else {
        None
    }
}

/// Two registers and a shift amount (the immediate reinterpreted as unsigned).
pub open spec fn shamt_args(ops: Seq<Seq<char>>) -> Option<(usize, usize, u32)> {
    if ops.len() == 3 && register_spec(ops[0]) is Some && register_spec(ops[1]) is Some
        && immediate_spec(ops[2]) is Some {
        Some((register_spec(ops[0])->0, register_spec(ops[1])->0, immediate_spec(ops[2])->0 as u32))
    } else {
        None
    }
}

/// Two registers and a label.
pub open spec fn branch_args(ops: Seq<Seq<char>>) -> Option<(usize, usize, Seq<char>)> {
    if ops.len() == 3 && register_spec(ops[0]) is Some && register_spec(ops[1]) is Some {
        Some((register_spec(ops[0])->0, register_spec(ops[1])->0, ops[2]))
    } else {
        None
    }
}

/// A register and an immediate.
pub open spec fn li_args(ops: Seq<Seq<char>>) -> Option<(usize, i32)> {
    if ops.len() == 2 && register_spec(ops[0]) is Some && immediate_spec(ops[1]) is Some {
        Some((register_spec(ops[0])->0, immediate_spec(ops[1])->0))
    } else {
        None
    }
}

// ---------------------------------------------------------------------------
// Mnemonics.

/// Arithmetic mnemonics; `None` when `m` is none of them.
pub open spec fn parse_arith_spec(m: Seq<char>, ops: Seq<Seq<char>>) -> Option<
    Result<ParsedView, ParseErrorView>,
> {
    if m == "add"@ {
        Some(match r3_args(ops) {
            Some(a) => Ok(ParsedView::Ready(Instruction::Add { rd: a.0, rs: a.1, rt: a.2 })),
            None => Err(ParseErrorView::InvalidArgument),
        })
    } else if m == "addu"@ {
        Some(match r3_args(ops) {
            Some(a) => Ok(ParsedView::Ready(Instruction::Addu { rd: a.0, rs: a.1, rt: a.2 })),
            None => Err(ParseErrorView::InvalidArgument),
        })
    } else if m == "addi"@ {
        Some(match itype_args(ops) {
            Some(a) => Ok(ParsedView::Ready(Instruction::Addi { rt: a.0, rs: a.1, imm: a.2 })),
            None => Err(ParseErrorView::InvalidArgument),
        })
    } else if m == "addiu"@ {
        Some(match itype_args(ops) {
            Some(a) => Ok(ParsedView::Ready(Instruction::Addiu { rt: a.0, rs: a.1, imm: a.2 })),
            None => Err(ParseErrorView::InvalidArgument),
        })
    } else if m == "div"@ {
        Some(match r2_args(ops) {
            Some(a) => Ok(ParsedView::Ready(Instruction::Div { rs: a.0, rt: a.1 })),
            None => Err(ParseErrorView::InvalidArgument),
        })
    } else if m == "divu"@ {
        Some(match r2_args(ops) {
            Some(a) => Ok(ParsedView::Ready(Instruction::Divu { rs: a.0, rt: a.1 })),
            None => Err(ParseErrorView::InvalidArgument),
        })
    } else if m == "sub"@ {
        Some(match r3_args(ops) {
            Some(a) => Ok(ParsedView::Ready(Instruction::Sub { rd: a.0, rs: a.1, rt: a.2 })),
            None => Err(ParseErrorView::InvalidArgument),
        })
    } else if m == "subu"@ {
        Some(match r3_args(ops) {
            Some(a) => Ok(ParsedView::Ready(Instruction::Subu { rd: a.0, rs: a.1, rt: a.2 })),
            None => Err(ParseErrorView::InvalidArgument),
        })
    } else {
        None
    }
}

/// Logical and shift mnemonics; `None` when `m` is none of them.
pub open spec fn parse_logic_spec(m: Seq<char>, ops: Seq<Seq<char>>) -> Option<
    Result<ParsedView, ParseErrorView>,
> {
    if m == "and"@ {
        Some(match r3_args(ops) {
            Some(a) => Ok(ParsedView::Ready(Instruction::And { rd: a.0, rs: a.1, rt: a.2 })),
            None => Err(ParseErrorView::InvalidArgument),
        })
    } else if m == "andi"@ {
        Some(match itype_args(ops) {
            Some(a) => Ok(ParsedView::Ready(Instruction::Andi { rt: a.0, rs: a.1, imm: a.2 })),
            None => Err(ParseErrorView::InvalidArgument),
        })
    } else if m == "nor"@ {
        Some(match r3_args(ops) {
            Some(a) => Ok(ParsedView::Ready(Instruction::Nor { rd: a.0, rs: a.1, rt: a.2 })),
            None => Err(ParseErrorView::InvalidArgument),
        })
    } else if m == "or"@ {
        Some(match r3_args(ops) {
            Some(a) => Ok(ParsedView::Ready(Instruction::Or { rd: a.0, rs: a.1, rt: a.2 })),
            None => Err(ParseErrorView::InvalidArgument),
        })
    } else if m == "ori"@ {
        Some(match itype_args(ops) {
            Some(a) => Ok(ParsedView::Ready(Instruction::Ori { rt: a.0, rs: a.1, imm: a.2 })),
            None => Err(ParseErrorView::InvalidArgument),
        })
    } else if m == "xor"@ {
        Some(match r3_args(ops) {
            Some(a) => Ok(ParsedView::Ready(Instruction::Xor { rd: a.0, rs: a.1, rt: a.2 })),
            None => Err(ParseErrorView::InvalidArgument),
        })
    } else if m == "xori"@ {
        Some(match itype_args(ops) {
            Some(a) => Ok(ParsedView::Ready(Instruction::Xori { rt: a.0, rs: a.1, imm: a.2 })),
            None => Err(ParseErrorView::InvalidArgument),
        })
    } else if m == "sll"@ {
        Some(match shamt_args(ops) {
            Some(a) => Ok(ParsedView::Ready(Instruction::Sll { rd: a.0, rt: a.1, shamt: a.2 })),
            None => Err(ParseErrorView::InvalidArgument),
        })
    } else if m == "sllv"@ {
        Some(match r3_args(ops) {
            Some(a) => Ok(ParsedView::Ready(Instruction::Sllv { rd: a.0, rt: a.1, rs: a.2 })),
            None => Err(ParseErrorView::InvalidArgument),
        })
    } else if m == "sra"@ {
        Some(match shamt_args(ops) {
            Some(a) => Ok(ParsedView::Ready(Instruction::Sra { rd: a.0, rt: a.1, shamt: a.2 })),
            None => Err(ParseErrorView::InvalidArgument),
        })
    } else if m == "srav"@ {
        Some(match r3_args(ops) {
            Some(a) => Ok(ParsedView::Ready(Instruction::Srav { rd: a.0, rt: a.1, rs: a.2 })),
            None => Err(ParseErrorView::InvalidArgument),
        })
    } else if m == "srl"@ {
        Some(match shamt_args(ops) {
            Some(a) => Ok(ParsedView::Ready(Instruction::Srl { rd: a.0, rt: a.1, shamt: a.2 })),
            None => Err(ParseErrorView::InvalidArgument),
        })
    } else if m == "srlv"@ {
        Some(match r3_args(ops) {
            Some(a) => Ok(ParsedView::Ready(Instruction::Srlv { rd: a.0, rt: a.1, rs: a.2 })),
            None => Err(ParseErrorView::InvalidArgument),
        })
    } else {
        None
    }
}

/// Control-flow mnemonics, `syscall` and the `li` pseudo-instruction; `None` when `m` is
/// none of them.
pub open spec fn parse_control_spec(m: Seq<char>, ops: Seq<Seq<char>>) -> Option<
    Result<ParsedView, ParseErrorView>,
> {
    if m == "beq"@ || m == "bne"@ {
        Some(
            match branch_args(ops) {
                Some(a) => Ok(
                    ParsedView::Branch {
                        kind: if m == "beq"@ {
                            Cond::Eq
                        } else {
                            Cond::Ne
                        },
                        rs: a.0,
                        rt: a.1,
                        label: a.2,
                    },
                ),
                None => Err(ParseErrorView::InvalidArgument),
            },
        )
    } else if m == "j"@ {
        Some(
            if ops.len() == 1 {
                Ok(ParsedView::Jump { label: ops[0] })
            } else {
                Err(ParseErrorView::InvalidArgument)
            },
        )
    } else if m == "syscall"@ {
        Some(
            if ops.len() == 0 {
                Ok(ParsedView::Ready(Instruction::Syscall))
            } else {
                Err(ParseErrorView::InvalidArgument)
            },
        )
    } else if m == "li"@ {
        Some(match li_args(ops) {
            Some(a) => Ok(ParsedView::Ready(Instruction::Addi { rt: a.0, rs: register::ZERO, imm: a.1 as i16 })),
            None => Err(ParseErrorView::InvalidArgument),
        })
    } else {
        None
    }
}

/// What one line of assembly parses to. The line is trimmed; its first word is the mnemonic
/// and the rest, split at commas, gives the operands (trimmed, blank ones dropped).
pub open spec fn parse_line_spec(input: Seq<char>) -> Result<ParsedView, ParseErrorView> {
    let t = trim(input);
    let m = head_word(t);
    let ops = operands(after_head_word(t));
    if parse_arith_spec(m, ops) is Some {
        parse_arith_spec(m, ops)->0
    } else if parse_logic_spec(m, ops) is Some {
        parse_logic_spec(m, ops)->0
    } else if parse_control_spec(m, ops) is Some {
        parse_control_spec(m, ops)->0
    } else {
        Err(ParseErrorView::UnknownInstruction)
    }
}

// ---------------------------------------------------------------------------
// Reading operands.

/// `r[j]` are the bounds in `a` of the operand `ops[j]`.
pub open spec fn ranges_spell(a: Seq<char>, r: Seq<(usize, usize)>, ops: Seq<Seq<char>>) -> bool {
    &&& r.len() == ops.len()
    &&& forall|j: int|
        0 <= j < r.len() ==> (#[trigger] r[j]).0 <= r[j].1 <= a.len() && a.subrange(
            r[j].0 as int,
            r[j].1 as int,
        ) == ops[j]
}

pub open spec fn option_view(o: Option<Result<Parsed, ParseError>>) -> Option<
    Result<ParsedView, ParseErrorView>,
> {
    match o {
        Some(r) => Some(parse_result_view(r)),
        None => None,
    }
}

fn next_reg(
    a: &[char],
    r: &Vec<(usize, usize)>,
    j: usize,
    Ghost(ops): Ghost<Seq<Seq<char>>>,
) -> (reg: Option<usize>)
    requires
        ranges_spell(a@, r@, ops),
        j < r@.len(),
    ensures
        reg == register_spec(ops[j as int]),
{
    let (lo, hi) = r[j];
    parse_register(a, lo, hi)
}

fn next_imm(
    a: &[char],
    r: &Vec<(usize, usize)>,
    j: usize,
    Ghost(ops): Ghost<Seq<Seq<char>>>,
) -> (imm: Option<i32>)
    requires
        ranges_spell(a@, r@, ops),
        j < r@.len(),
    ensures
        imm == immediate_spec(ops[j as int]),
{
    let (lo, hi) = r[j];
    parse_immediate(a, lo, hi)
}

fn next_label(
    a: &[char],
    r: &Vec<(usize, usize)>,
    j: usize,
    Ghost(ops): Ghost<Seq<Seq<char>>>,
) -> (label: String)
    requires
        ranges_spell(a@, r@, ops),
        j < r@.len(),
    ensures
        label@ == ops[j as int],
{
    let (lo, hi) = r[j];
    string_from_range(a, lo, hi)
}

pub(crate) fn fmt_r3(
    a: &[char],
    r: &Vec<(usize, usize)>,
    Ghost(ops): Ghost<Seq<Seq<char>>>,
) -> (res: Option<(usize, usize, usize)>)
    requires
        ranges_spell(a@, r@, ops),
    ensures
        res == r3_args(ops),
{
    if r.len() != 3 {
        return None;
    }
    match (next_reg(a, r, 0, Ghost(ops)), next_reg(a, r, 1, Ghost(ops)), next_reg(a, r, 2, Ghost(ops))) {
        (Some(x), Some(y), Some(z)) => Some((x, y, z)),
        _ => None,
    }
}

/// Same operands as `fmt_r3`, named for the variable shifts: destination, source, shift register.
fn fmt_shamt_var(
    a: &[char],
    r: &Vec<(usize, usize)>,
    Ghost(ops): Ghost<Seq<Seq<char>>>,
) -> (res: Option<(usize, usize, usize)>)
    requires
        ranges_spell(a@, r@, ops),
    ensures
        res == r3_args(ops),
{
    fmt_r3(a, r, Ghost(ops))
}

fn fmt_r2(
    a: &[char],
    r: &Vec<(usize, usize)>,
    Ghost(ops): Ghost<Seq<Seq<char>>>,
) -> (res: Option<(usize, usize)>)
    requires
        ranges_spell(a@, r@, ops),
    ensures
        res == r2_args(ops),
{
    if r.len() != 2 {
        return None;
    }
    match (next_reg(a, r, 0, Ghost(ops)), next_reg(a, r, 1, Ghost(ops))) {
        (Some(x), Some(y)) => Some((x, y)),
        _ => None,
    }
}

pub(crate) fn fmt_itype(
    a: &[char],
    r: &Vec<(usize, usize)>,
    Ghost(ops): Ghost<Seq<Seq<char>>>,
) -> (res: Option<(usize, usize, i16)>)
    requires
        ranges_spell(a@, r@, ops),
    ensures
        res == itype_args(ops),
{
    if r.len() != 3 {
        return None;
    }
    match (next_reg(a, r, 0, Ghost(ops)), next_reg(a, r, 1, Ghost(ops)), next_imm(a, r, 2, Ghost(ops))) {
        (Some(x), Some(y), Some(z)) => Some((x, y, z as i16)),
        _ => None,
    }
}

fn fmt_shamt(
    a: &[char],
    r: &Vec<(usize, usize)>,
    Ghost(ops): Ghost<Seq<Seq<char>>>,
) -> (res: Option<(usize, usize, u32)>)
    requires
        ranges_spell(a@, r@, ops),
    ensures
        res == shamt_args(ops),
{
    if r.len() != 3 {
        return None;
    }
    match (next_reg(a, r, 0, Ghost(ops)), next_reg(a, r, 1, Ghost(ops)), next_imm(a, r, 2, Ghost(ops))) {
        (Some(x), Some(y), Some(z)) => Some((x, y, z as u32)),
        _ => None,
    }
}

fn fmt_branch(
    a: &[char],
    r: &Vec<(usize, usize)>,
    Ghost(ops): Ghost<Seq<Seq<char>>>,
) -> (res: Option<(usize, usize, String)>)
    requires
        ranges_spell(a@, r@, ops),
    ensures
        match res {
            Some(x) => branch_args(ops) == Some((x.0, x.1, x.2@)),
            None => branch_args(ops) is None,
        },
{
    if r.len() != 3 {
        return None;
    }
    match (next_reg(a, r, 0, Ghost(ops)), next_reg(a, r, 1, Ghost(ops))) {
        (Some(x), Some(y)) => Some((x, y, next_label(a, r, 2, Ghost(ops)))),
        _ => None,
    }
}

pub(crate) fn fmt_li(
    a: &[char],
    r: &Vec<(usize, usize)>,
    Ghost(ops): Ghost<Seq<Seq<char>>>,
) -> (res: Option<(usize, i32)>)
    requires
        ranges_spell(a@, r@, ops),
    ensures
        res == li_args(ops),
{
    if r.len() != 2 {
        return None;
    }
    match (next_reg(a, r, 0, Ghost(ops)), next_imm(a, r, 1, Ghost(ops))) {
        (Some(x), Some(y)) => Some((x, y)),
        _ => None,
    }
}

fn parse_arith(
    a: &[char],
    ml: usize,
    mh: usize,
    r: &Vec<(usize, usize)>,
    Ghost(ops): Ghost<Seq<Seq<char>>>,
) -> (res: Option<Result<Parsed, ParseError>>)
    requires
        ml <= mh <= a@.len(),
        ranges_spell(a@, r@, ops),
    ensures
        option_view(res) == parse_arith_spec(a@.subrange(ml as int, mh as int), ops),
{
    if range_eq_str(a, ml, mh, "add") {
        Some(match fmt_r3(a, r, Ghost(ops)) {
            Some((x, y, z)) => Ok(Parsed::Ready(Instruction::Add { rd: x, rs: y, rt: z })),
            None => Err(ParseError::InvalidArgument),
        })
    } else if range_eq_str(a, ml, mh, "addu") {
        Some(match fmt_r3(a, r, Ghost(ops)) {
            Some((x, y, z)) => Ok(Parsed::Ready(Instruction::Addu { rd: x, rs: y, rt: z })),
            None => Err(ParseError::InvalidArgument),
        })
    } else if range_eq_str(a, ml, mh, "addi") {
        Some(match fmt_itype(a, r, Ghost(ops)) {
            Some((x, y, z)) => Ok(Parsed::Ready(Instruction::Addi { rt: x, rs: y, imm: z })),
            None => Err(ParseError::InvalidArgument),
        })
    } else if range_eq_str(a, ml, mh, "addiu") {
        Some(match fmt_itype(a, r, Ghost(ops)) {
            Some((x, y, z)) => Ok(Parsed::Ready(Instruction::Addiu { rt: x, rs: y, imm: z })),
            None => Err(ParseError::InvalidArgument),
        })
    } else if range_eq_str(a, ml, mh, "div") {
        Some(match fmt_r2(a, r, Ghost(ops)) {
            Some((x, y)) => Ok(Parsed::Ready(Instruction::Div { rs: x, rt: y })),
            None => Err(ParseError::InvalidArgument),
        })
    } else if range_eq_str(a, ml, mh, "divu") {
        Some(match fmt_r2(a, r, Ghost(ops)) {
            Some((x, y)) => Ok(Parsed::Ready(Instruction::Divu { rs: x, rt: y })),
            None => Err(ParseError::InvalidArgument),
        })
    } else if range_eq_str(a, ml, mh, "sub") {
        Some(match fmt_r3(a, r, Ghost(ops)) {
            Some((x, y, z)) => Ok(Parsed::Ready(Instruction::Sub { rd: x, rs: y, rt: z })),
            None => Err(ParseError::InvalidArgument),
        })
    } else if range_eq_str(a, ml, mh, "subu") {
        Some(match fmt_r3(a, r, Ghost(ops)) {
            Some((x, y, z)) => Ok(Parsed::Ready(Instruction::Subu { rd: x, rs: y, rt: z })),
            None => Err(ParseError::InvalidArgument),
        })
    } else {
        None
    }
}

fn parse_logic(
    a: &[char],
    ml: usize,
    mh: usize,
    r: &Vec<(usize, usize)>,
    Ghost(ops): Ghost<Seq<Seq<char>>>,
) -> (res: Option<Result<Parsed, ParseError>>)
    requires
        ml <= mh <= a@.len(),
        ranges_spell(a@, r@, ops),
    ensures
        option_view(res) == parse_logic_spec(a@.subrange(ml as int, mh as int), ops),
{
    if range_eq_str(a, ml, mh, "and") {
        Some(match fmt_r3(a, r, Ghost(ops)) {
            Some((x, y, z)) => Ok(Parsed::Ready(Instruction::And { rd: x, rs: y, rt: z })),
            None => Err(ParseError::InvalidArgument),
        })
    } else if range_eq_str(a, ml, mh, "andi") {
        Some(match fmt_itype(a, r, Ghost(ops)) {
            Some((x, y, z)) => Ok(Parsed::Ready(Instruction::Andi { rt: x, rs: y, imm: z })),
            None => Err(ParseError::InvalidArgument),
        })
    } else if range_eq_str(a, ml, mh, "nor") {
        Some(match fmt_r3(a, r, Ghost(ops)) {
            Some((x, y, z)) => Ok(Parsed::Ready(Instruction::Nor { rd: x, rs: y, rt: z })),
            None => Err(ParseError::InvalidArgument),
        })
    } else if range_eq_str(a, ml, mh, "or") {
        Some(match fmt_r3(a, r, Ghost(ops)) {
            Some((x, y, z)) => Ok(Parsed::Ready(Instruction::Or { rd: x, rs: y, rt: z })),
            None => Err(ParseError::InvalidArgument),
        })
    } else if range_eq_str(a, ml, mh, "ori") {
        Some(match fmt_itype(a, r, Ghost(ops)) {
            Some((x, y, z)) => Ok(Parsed::Ready(Instruction::Ori { rt: x, rs: y, imm: z })),
            None => Err(ParseError::InvalidArgument),
        })
    } else if range_eq_str(a, ml, mh, "xor") {
        Some(match fmt_r3(a, r, Ghost(ops)) {
            Some((x, y, z)) => Ok(Parsed::Ready(Instruction::Xor { rd: x, rs: y, rt: z })),
            None => Err(ParseError::InvalidArgument),
        })
    } else if range_eq_str(a, ml, mh, "xori") {
        Some(match fmt_itype(a, r, Ghost(ops)) {
            Some((x, y, z)) => Ok(Parsed::Ready(Instruction::Xori { rt: x, rs: y, imm: z })),
            None => Err(ParseError::InvalidArgument),
        })
    } else if range_eq_str(a, ml, mh, "sll") {
        Some(match fmt_shamt(a, r, Ghost(ops)) {
            Some((x, y, z)) => Ok(Parsed::Ready(Instruction::Sll { rd: x, rt: y, shamt: z })),
            None => Err(ParseError::InvalidArgument),
        })
    } else if range_eq_str(a, ml, mh, "sllv") {
        Some(match fmt_shamt_var(a, r, Ghost(ops)) {
            Some((x, y, z)) => Ok(Parsed::Ready(Instruction::Sllv { rd: x, rt: y, rs: z })),
            None => Err(ParseError::InvalidArgument),
        })
    } else if range_eq_str(a, ml, mh, "sra") {
        Some(match fmt_shamt(a, r, Ghost(ops)) {
            Some((x, y, z)) => Ok(Parsed::Ready(Instruction::Sra { rd: x, rt: y, shamt: z })),
            None => Err(ParseError::InvalidArgument),
        })
    } else if range_eq_str(a, ml, mh, "srav") {
        Some(match fmt_shamt_var(a, r, Ghost(ops)) {
            Some((x, y, z)) => Ok(Parsed::Ready(Instruction::Srav { rd: x, rt: y, rs: z })),
            None => Err(ParseError::InvalidArgument),
        })
    } else if range_eq_str(a, ml, mh, "srl") {
        Some(match fmt_shamt(a, r, Ghost(ops)) {
            Some((x, y, z)) => Ok(Parsed::Ready(Instruction::Srl { rd: x, rt: y, shamt: z })),
            None => Err(ParseError::InvalidArgument),
        })
    } else if range_eq_str(a, ml, mh, "srlv") {
        Some(match fmt_shamt_var(a, r, Ghost(ops)) {
            Some((x, y, z)) => Ok(Parsed::Ready(Instruction::Srlv { rd: x, rt: y, rs: z })),
            None => Err(ParseError::InvalidArgument),
        })
    } else {
        None
    }
}

fn parse_control(
    a: &[char],
    ml: usize,
    mh: usize,
    r: &Vec<(usize, usize)>,
    Ghost(ops): Ghost<Seq<Seq<char>>>,
) -> (res: Option<Result<Parsed, ParseError>>)
    requires
        ml <= mh <= a@.len(),
        ranges_spell(a@, r@, ops),
    ensures
        option_view(res) == parse_control_spec(a@.subrange(ml as int, mh as int), ops),
{
    let is_beq = range_eq_str(a, ml, mh, "beq");
    if is_beq || range_eq_str(a, ml, mh, "bne") {
        let kind = if is_beq {
            Cond::Eq
        } else {
            Cond::Ne
        };
        Some(match fmt_branch(a, r, Ghost(ops)) {
            Some((rs, rt, label)) => Ok(Parsed::Branch { kind, rs, rt, label }),
            None => Err(ParseError::InvalidArgument),
        })
    } else if range_eq_str(a, ml, mh, "j") {
        Some(if r.len() == 1 {
            Ok(Parsed::Jump { label: next_label(a, r, 0, Ghost(ops)) })
        } else {
            Err(ParseError::InvalidArgument)
        })
    } else if range_eq_str(a, ml, mh, "syscall") {
        Some(if r.len() == 0 {
            Ok(Parsed::Ready(Instruction::Syscall))
        } else {
            Err(ParseError::InvalidArgument)
        })
    } else if range_eq_str(a, ml, mh, "li") {
        Some(match fmt_li(a, r, Ghost(ops)) {
            Some((rd, imm)) => Ok(Parsed::Ready(Instruction::Addi { rt: rd, rs: register::ZERO, imm: imm as i16 })),
            None => Err(ParseError::InvalidArgument),
        })
    } else {
        None
    }
}

/// Bounds of the mnemonic of the line `a[lo..hi]`, and of its operands.
pub(crate) fn split_line(
    a: &[char],
    lo: usize,
    hi: usize,
) -> (r: (usize, usize, Vec<(usize, usize)>))
    requires
        lo <= hi <= a@.len(),
    ensures
        lo <= r.0 <= r.1 <= hi,
        a@.subrange(r.0 as int, r.1 as int) == head_word(trim(a@.subrange(lo as int, hi as int))),
        ranges_spell(a@, r.2@, operands(after_head_word(trim(a@.subrange(lo as int, hi as int))))),
{
    let (l, h) = trim_range(a, lo, hi);
    let ghost t = a@.subrange(l as int, h as int);
    let k = find_whitespace(a, l, h);
    let (rl, rh) = if k < h {
        (k + 1, h)
    } else {
        (h, h)
    };
    let r = operand_ranges(a, rl, rh);
    proof {
        assert(head_word(t) =~= a@.subrange(l as int, k as int));
        assert(after_head_word(t) =~= a@.subrange(rl as int, rh as int));
    }
    (l, k, r)
}

/// Parse the line `a[lo..hi]`.
pub(crate) fn parse_chars(a: &[char], lo: usize, hi: usize) -> (r: Result<Parsed, ParseError>)
    requires
        lo <= hi <= a@.len(),
    ensures
        parse_result_view(r) == parse_line_spec(a@.subrange(lo as int, hi as int)),
{
    let (l, k, r) = split_line(a, lo, hi);
    let ghost ops = operands(after_head_word(trim(a@.subrange(lo as int, hi as int))));
    if let Some(res) = parse_arith(a, l, k, &r, Ghost(ops)) {
        return res;
    }
    if let Some(res) = parse_logic(a, l, k, &r, Ghost(ops)) {
        return res;
    }
    if let Some(res) = parse_control(a, l, k, &r, Ghost(ops)) {
        return res;
    }
    Err(ParseError::UnknownInstruction)
}

/// Parse one line of assembly, e.g. `li $t0, 12`.
pub fn parse_line(input: &str) -> (r: Result<Parsed, ParseError>)
    ensures
        parse_result_view(r) == parse_line_spec(input@),
{
    let v = chars_of(input);
    let n = v.len();
    assert(v@.subrange(0, n as int) =~= input@);
    parse_chars(v.as_slice(), 0, n)
}

// ---------------------------------------------------------------------------
// Resolving labels.

/// The branch offset from the instruction at `here` to `target`, in words, counted from the
/// following instruction (rounded down).
pub open spec fn branch_delta(here: u32, target: u32) -> int {
    (target - (here + 4)) / 4
}

/// The 16-bit branch offset from `here` to `target`, or the error when it does not fit.
pub open spec fn branch_offset_spec(here: u32, target: u32) -> Result<i16, ParseErrorView> {
    let d = branch_delta(here, target);
    if i16::MIN <= d <= i16::MAX {
        Ok(d as i16)
    } else {
        Err(ParseErrorView::BranchOutOfRange { here, target, delta: d as i64 })
    }
}

fn branch_offset(here: u32, target: u32) -> (r: Result<i16, ParseError>)
    ensures
        match r {
            Ok(o) => branch_offset_spec(here, target) == Ok::<i16, ParseErrorView>(o),
            Err(e) => branch_offset_spec(here, target) == Err::<i16, ParseErrorView>(e@),
        },
{
    let delta: i64 = target as i64 - (here as i64 + 4);
    let q = delta >> 2;
    assert(q == delta / 4) by (bit_vector)
        requires
            q == delta >> 2,
            -0x1_0000_0004 <= delta <= 0xffff_ffff,
    ;
    if -32768 <= q && q <= 32767 {
        Ok(q as i16)
    } else {
        Err(ParseError::BranchOutOfRange { here, target, delta: q })
    }
}

/// The address a label table holds for the label spelled `name`.
pub open spec fn lookup_spec(labels: Map<String, u32>, name: Seq<char>) -> Option<u32> {
    if exists|k: String| #[trigger] labels.contains_key(k) && k@ == name {
        Some(labels[choose|k: String| #[trigger] labels.contains_key(k) && k@ == name])
    } else {
        None
    }
}

/// `HashMap::get` on a label table. `String` keys compare by their characters, and a map
/// holds at most one key with given characters, so the result is the value stored under
/// the key that spells `label`, if there is one.
#[verifier::external_body]
fn lookup_label(labels: &HashMap<String, u32>, label: &String) -> (r: Option<u32>)
    ensures
        r == lookup_spec(labels@, label@),
{
    labels.get(label).copied()
}

/// The instruction a parsed line stands for once its label, if any, is looked up.
pub open spec fn resolve_spec(parsed: ParsedView, here: u32, labels: Map<String, u32>) -> Result<
    Instruction,
    ParseErrorView,
> {
    match parsed {
        ParsedView::Ready(inst) => Ok(inst),
        ParsedView::Branch { kind, rs, rt, label } => match lookup_spec(labels, label) {
            None => Err(ParseErrorView::UndefinedLabel { label }),
            Some(target) => match branch_offset_spec(here, target) {
                Err(e) => Err(e),
                Ok(offset) => Ok(
                    match kind {
                        Cond::Eq => Instruction::Beq { rs, rt, offset },
                        Cond::Ne => Instruction::Bne { rs, rt, offset },
                    },
                ),
            },
        },
        ParsedView::Jump { label } => match lookup_spec(labels, label) {
            None => Err(ParseErrorView::UndefinedLabel { label }),
            Some(target) => Ok(Instruction::Jump { target }),
        },
    }
}

pub open spec fn resolve_result_view(r: Result<Instruction, ParseError>) -> Result<
    Instruction,
    ParseErrorView,
> {
    match r {
        Ok(i) => Ok(i),
        Err(e) => Err(e@),
    }
}

/// Turn a parsed line into an instruction, looking up its label; `here` is the address of
/// the instruction itself.
pub fn resolve(parsed: Parsed, here: u32, labels: &HashMap<String, u32>) -> (r: Result<
    Instruction,
    ParseError,
>)
    ensures
        resolve_result_view(r) == resolve_spec(parsed@, here, labels@),
{
    match parsed {
        Parsed::Ready(inst) => Ok(inst),
        Parsed::Branch { kind, rs, rt, label } => {
            let target = match lookup_label(labels, &label) {
                Some(t) => t,
                None => {
                    return Err(ParseError::UndefinedLabel { label });
                },
            };
            let offset = match branch_offset(here, target) {
                Ok(o) => o,
                Err(e) => {
                    return Err(e);
                },
            };
            Ok(
                match kind {
                    Cond::Eq => Instruction::Beq { rs, rt, offset },
                    Cond::Ne => Instruction::Bne { rs, rt, offset },
                },
            )
        },
        Parsed::Jump { label } => {
            let target = match lookup_label(labels, &label) {
                Some(t) => t,
                None => {
                    return Err(ParseError::UndefinedLabel { label });
                },
            };
            Ok(Instruction::Jump { target })
        },
    }
}

/// Every instruction a line parses to has an encoding.
pub proof fn lemma_parsed_encodable(input: Seq<char>)
    ensures
        parse_line_spec(input) matches Ok(ParsedView::Ready(inst)) ==> crate::instruction::encodable(
            inst,
        ),
{
}

/// A resolved branch reaches its label: when the target lies a whole number of words away,
/// the instruction after the branch plus the offset in words is the target.
pub proof fn lemma_branch_offset_reaches_target(here: u32, target: u32)
    requires
        (target - here) % 4 == 0,
        branch_offset_spec(here, target) is Ok,
    ensures
        here + 4 + 4 * (branch_offset_spec(here, target)->Ok_0 as int) == target,
{
    let d = target - (here + 4);
    assert(d % 4 == 0);
    assert(4 * (d / 4) == d);
}

/// A jump resolves to the absolute address its label names in the table, wherever the jump
/// itself sits; a jump to a label the table lacks is an undefined-label error.
pub proof fn lemma_resolve_jump_absolute(label: Seq<char>, here: u32, labels: Map<String, u32>, key: String)
    ensures
        labels.contains_key(key) && key@ == label && (forall|k: String|
            #[trigger] labels.contains_key(k) && k@ == label ==> labels[k] == labels[key])
            ==> resolve_spec(ParsedView::Jump { label }, here, labels) == Ok::<
            Instruction,
            ParseErrorView,
        >(Instruction::Jump { target: labels[key] }),
        (forall|k: String| #[trigger] labels.contains_key(k) ==> k@ != label) ==> resolve_spec(
            ParsedView::Jump { label },
            here,
            labels,
        ) == Err::<Instruction, ParseErrorView>(ParseErrorView::UndefinedLabel { label }),
{
    if labels.contains_key(key) && key@ == label {
        assert(labels.contains_key(key) && key@ == label);
    }
}

/// A branch resolves, for `beq` (`Cond::Eq`) to `Beq` and for `bne` (`Cond::Ne`) to `Bne`,
/// with its registers unchanged and the offset in words that, counted from the following
/// instruction, reaches the label's address; when that distance does not fit in 16 bits,
/// the result is an out-of-range error naming both addresses and the distance in words.
pub proof fn lemma_resolve_branch_reaches_label(
    kind: Cond,
    rs: usize,
    rt: usize,
    here: u32,
    labels: Map<String, u32>,
    key: String,
)
    requires
        labels.contains_key(key),
        forall|k: String| #[trigger] labels.contains_key(k) && k@ == key@ ==> labels[k] == labels[key],
    ensures
        ({
            let target = labels[key];
            let dist = target - (here + 4);
            let r = resolve_spec(ParsedView::Branch { kind, rs, rt, label: key@ }, here, labels);
            &&& dist % 4 == 0 && -0x2_0000 <= dist < 0x2_0000 ==> match r {
                Ok(Instruction::Beq { rs: a, rt: b, offset }) => kind == Cond::Eq && a == rs && b
                    == rt && here + 4 + 4 * offset == target,
                Ok(Instruction::Bne { rs: a, rt: b, offset }) => kind == Cond::Ne && a == rs && b
                    == rt && here + 4 + 4 * offset == target,
                _ => false,
            }
            &&& (dist < -0x2_0000 || dist >= 0x2_0000) ==> r == Err::<Instruction, ParseErrorView>(
                ParseErrorView::BranchOutOfRange { here, target, delta: (dist / 4) as i64 },
            )
        }),
{
    assert(labels.contains_key(key) && key@ == key@);
    let target = labels[key];
    let dist = target - (here + 4);
    if dist % 4 == 0 && -0x2_0000 <= dist < 0x2_0000 {
        assert(4 * (dist / 4) == dist);
    }
}

/// Whitespace around a line does not change how it parses.
pub proof fn lemma_parse_line_ignores_padding(pre: Seq<char>, line: Seq<char>, post: Seq<char>)
    requires
        all_ws(pre),
        all_ws(post),
    ensures
        parse_line_spec(pre + line + post) == parse_line_spec(line),
{
    lemma_trim_ignores_padding(pre, line, post);
}

} // verus!
