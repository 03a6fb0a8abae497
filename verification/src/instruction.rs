//! MIPS instructions and their 32-bit machine encoding.
use vstd::prelude::*;

pub mod funct;
pub mod op;

verus! {

/// A decoded MIPS instruction.
#[derive(Debug, PartialEq, Eq, Structural)]
#[allow(inconsistent_fields)]
pub enum Instruction {
    Add { rd: usize, rs: usize, rt: usize },
    Addu { rd: usize, rs: usize, rt: usize },
    Addi { rt: usize, rs: usize, imm: i16 },
    Addiu { rt: usize, rs: usize, imm: i16 },
    And { rd: usize, rs: usize, rt: usize },
    Andi { rt: usize, rs: usize, imm: i16 },
    Div { rs: usize, rt: usize },
    Divu { rs: usize, rt: usize },
    Mult { rs: usize, rt: usize },
    Multu { rs: usize, rt: usize },
    Nor { rd: usize, rs: usize, rt: usize },
    Or { rd: usize, rs: usize, rt: usize },
    Ori { rt: usize, rs: usize, imm: i16 },
    Sll { rd: usize, rt: usize, shamt: u32 },
    Sllv { rd: usize, rt: usize, rs: usize },
    Sra { rd: usize, rt: usize, shamt: u32 },
    Srav { rd: usize, rt: usize, rs: usize },
    Srl { rd: usize, rt: usize, shamt: u32 },
    Srlv { rd: usize, rt: usize, rs: usize },
    Sub { rd: usize, rs: usize, rt: usize },
    Subu { rd: usize, rs: usize, rt: usize },
    Xor { rd: usize, rs: usize, rt: usize },
    Xori { rt: usize, rs: usize, imm: i16 },
    Beq { rs: usize, rt: usize, offset: i16 },
    Bne { rs: usize, rt: usize, offset: i16 },
    /// Absolute byte address.
    Jump { target: u32 },
    Syscall,
    /// Load a full 32-bit immediate; produced by the single-line parser, never encoded.
    LoadImmediate { rd: usize, imm: i32 },
}

// ---------------------------------------------------------------------------
// Fields of a word, stated arithmetically.

/// Bits 31..26.
#[verifier::opaque]
pub open spec fn field_opcode(w: u32) -> u32 {
    w / 0x0400_0000
}

/// Bits 25..21.
#[verifier::opaque]
pub open spec fn field_rs(w: u32) -> usize {
    ((w / 0x0020_0000) % 32) as usize
}

/// Bits 20..16.
#[verifier::opaque]
pub open spec fn field_rt(w: u32) -> usize {
    ((w / 0x0001_0000) % 32) as usize
}

/// Bits 15..11.
#[verifier::opaque]
pub open spec fn field_rd(w: u32) -> usize {
    ((w / 0x0800) % 32) as usize
}

/// Bits 10..6.
#[verifier::opaque]
pub open spec fn field_shamt(w: u32) -> u32 {
    (w / 0x40) % 32
}

/// Bits 5..0.
#[verifier::opaque]
pub open spec fn field_funct(w: u32) -> u32 {
    w % 64
}

/// A 16-bit two's complement value read as a signed number.
pub open spec fn signed16(u: int) -> i16 {
    if u < 0x8000 {
        u as i16
    } else {
        (u - 0x1_0000) as i16
    }
}

/// Bits 15..0, sign-extended.
#[verifier::opaque]
pub open spec fn field_imm(w: u32) -> i16 {
    signed16((w % 0x1_0000) as int)
}

/// Bits 25..0.
#[verifier::opaque]
pub open spec fn field_target(w: u32) -> u32 {
    w % 0x0400_0000
}

/// The 16-bit two's complement pattern of `imm`.
pub open spec fn bits16(imm: i16) -> u32 {
    if imm >= 0 {
        imm as u32
    } else {
        (imm + 0x1_0000) as u32
    }
}

/// R-type word: opcode 0, then rs, rt, rd, shamt and funct, each cut to its field width.
#[verifier::opaque]
pub open spec fn pack_r(funct: u32, rs: int, rt: int, rd: int, shamt: u32) -> u32 {
    ((rs % 32) * 0x0020_0000 + (rt % 32) * 0x0001_0000 + (rd % 32) * 0x0800 + (shamt % 32) * 0x40
        + funct % 64) as u32
}

/// I-type word: opcode, rs, rt and a 16-bit immediate.
#[verifier::opaque]
pub open spec fn pack_i(opcode: u32, rs: int, rt: int, imm: i16) -> u32 {
    ((opcode % 64) * 0x0400_0000 + (rs % 32) * 0x0020_0000 + (rt % 32) * 0x0001_0000 + bits16(
        imm,
    )) as u32
}

/// J-type word: opcode and a 26-bit target.
#[verifier::opaque]
pub open spec fn pack_j(opcode: u32, target: u32) -> u32 {
    ((opcode % 64) * 0x0400_0000 + target % 0x0400_0000) as u32
}

// ---------------------------------------------------------------------------
// Field accessors.

pub fn opcode(w: u32) -> (r: u32)
    ensures
        r == field_opcode(w),
{
    reveal(field_opcode);
    assert(w >> 26u32 == w / 0x0400_0000) by (bit_vector);
    w >> 26
}

pub fn rs(w: u32) -> (r: usize)
    ensures
        r == field_rs(w),
{
    reveal(field_rs);
    assert((w >> 21u32) & 0x1f == (w / 0x0020_0000) % 32) by (bit_vector);
    ((w >> 21) & 0x1f) as usize
}

pub fn rt(w: u32) -> (r: usize)
    ensures
        r == field_rt(w),
{
    reveal(field_rt);
    assert((w >> 16u32) & 0x1f == (w / 0x0001_0000) % 32) by (bit_vector);
    ((w >> 16) & 0x1f) as usize
}

pub fn rd(w: u32) -> (r: usize)
    ensures
        r == field_rd(w),
{
    reveal(field_rd);
    assert((w >> 11u32) & 0x1f == (w / 0x0800) % 32) by (bit_vector);
    ((w >> 11) & 0x1f) as usize
}

pub fn shamt(w: u32) -> (r: u32)
    ensures
        r == field_shamt(w),
{
    reveal(field_shamt);
    assert((w >> 6u32) & 0x1f == (w / 0x40) % 32) by (bit_vector);
    (w >> 6) & 0x1f
}

pub fn funct(w: u32) -> (r: u32)
    ensures
        r == field_funct(w),
{
    reveal(field_funct);
    assert(w & 0x3f == w % 64) by (bit_vector);
    w & 0x3f
}

/// The immediate field, sign-extended.
pub fn imm(w: u32) -> (r: i16)
    ensures
        r == field_imm(w),
{
    reveal(field_imm);
    let u = w & 0xffff;
    assert(u == w % 0x1_0000) by (bit_vector)
        requires
            u == w & 0xffff,
    ;
    assert(u < 0x8000 ==> (u as i16) as int == u as int) by (bit_vector);
    assert(u >= 0x8000 && u <= 0xffff ==> (u as i16) as int == u as int - 0x1_0000) by (bit_vector);
    u as i16
}

/// The raw 26-bit target field.
pub fn target(w: u32) -> (r: u32)
    ensures
        r == field_target(w),
{
    reveal(field_target);
    assert(w & 0x03ff_ffff == w % 0x0400_0000) by (bit_vector);
    w & 0x03ff_ffff
}

// ---------------------------------------------------------------------------
// Encode helpers.

proof fn lemma_low5_of_usize(x: usize)
    ensures
        (x as u32) & 0x1f == (x % 32) as u32,
{
    assert((x as u32) & 0x1f == (x % 32) as u32) by (bit_vector);
}

proof fn lemma_bits16(imm: i16)
    ensures
        (imm as u16) as u32 == bits16(imm),
{
    assert(imm >= 0 ==> (imm as u16) as int == imm as int) by (bit_vector);
    assert(imm < 0 ==> (imm as u16) as int == imm as int + 0x1_0000) by (bit_vector);
}

pub fn r_type(funct: u32, rs: usize, rt: usize, rd: usize, shamt: u32) -> (w: u32)
    ensures
        w == pack_r(funct, rs as int, rt as int, rd as int, shamt),
{
    reveal(pack_r);
    proof {
        lemma_low5_of_usize(rs);
        lemma_low5_of_usize(rt);
        lemma_low5_of_usize(rd);
    }
    let a = rs as u32 & 0x1f;
    let b = rt as u32 & 0x1f;
    let c = rd as u32 & 0x1f;
    let d = shamt & 0x1f;
    let e = funct & 0x3f;
    assert(d == shamt % 32 && e == funct % 64) by (bit_vector)
        requires
            d == shamt & 0x1f,
            e == funct & 0x3f,
    ;
    assert(a << 21u32 | b << 16u32 | c << 11u32 | d << 6u32 | e == a * 0x0020_0000 + b
        * 0x0001_0000 + c * 0x0800 + d * 0x40 + e) by (bit_vector)
        requires
            a < 32,
            b < 32,
            c < 32,
            d < 32,
            e < 64,
    ;
    a << 21 | b << 16 | c << 11 | d << 6 | e
}

pub fn i_type(opcode: u32, rs: usize, rt: usize, imm: i16) -> (w: u32)
    ensures
        w == pack_i(opcode, rs as int, rt as int, imm),
{
    reveal(pack_i);
    proof {
        lemma_low5_of_usize(rs);
        lemma_low5_of_usize(rt);
        lemma_bits16(imm);
    }
    let o = opcode & 0x3f;
    let a = rs as u32 & 0x1f;
    let b = rt as u32 & 0x1f;
    let u = imm as u16 as u32;
    assert(o == opcode % 64) by (bit_vector)
        requires
            o == opcode & 0x3f,
    ;
    assert(u < 0x1_0000);
    assert(o << 26u32 | a << 21u32 | b << 16u32 | u == o * 0x0400_0000 + a * 0x0020_0000 + b
        * 0x0001_0000 + u) by (bit_vector)
        requires
            o < 64,
            a < 32,
            b < 32,
            u < 0x1_0000,
    ;
    (o << 26) | (a << 21) | (b << 16) | u
}

pub fn j_type(opcode: u32, target: u32) -> (w: u32)
    ensures
        w == pack_j(opcode, target),
{
    reveal(pack_j);
    let o = opcode & 0x3f;
    let t = target & 0x03ff_ffff;
    assert(o == opcode % 64 && t == target % 0x0400_0000) by (bit_vector)
        requires
            o == opcode & 0x3f,
            t == target & 0x03ff_ffff,
    ;
    assert(o << 26u32 | t == o * 0x0400_0000 + t) by (bit_vector)
        requires
            o < 64,
            t < 0x0400_0000,
    ;
    (o << 26) | t
}

/// A REGIMM word: opcode 1, rs, a 5-bit sub-opcode in the rt field, and an immediate.
pub fn regimm(rs: usize, subop: u32, imm: i16) -> (w: u32)
    ensures
        w == pack_i(op::REGIMM, rs as int, subop as int, imm),
{
    reveal(pack_i);
    proof {
        lemma_low5_of_usize(rs);
        lemma_bits16(imm);
    }
    let a = rs as u32 & 0x1f;
    let b = subop & 0x1f;
    let u = imm as u16 as u32;
    assert(b == subop % 32) by (bit_vector)
        requires
            b == subop & 0x1f,
    ;
    assert((0x01u32 << 26u32) | a << 21u32 | b << 16u32 | u == 0x0400_0000 + a * 0x0020_0000 + b
        * 0x0001_0000 + u) by (bit_vector)
        requires
            a < 32,
            b < 32,
            u < 0x1_0000,
    ;
    (0x01 << 26) | (a << 21) | (b << 16) | u
}

// ---------------------------------------------------------------------------
// Decoding.

/// The instruction an R-type (SPECIAL) word stands for, by its funct field.
pub open spec fn decode_r_spec(w: u32) -> Option<Instruction> {
    let rs = field_rs(w);
    let rt = field_rt(w);
    let rd = field_rd(w);
    let shamt = field_shamt(w);
    let f = field_funct(w);
    if f == funct::SLL {
        Some(Instruction::Sll { rd, rt, shamt })
    } else if f == funct::SRL {
        Some(Instruction::Srl { rd, rt, shamt })
    } else if f == funct::SRA {
        Some(Instruction::Sra { rd, rt, shamt })
    } else if f == funct::SLLV {
        Some(Instruction::Sllv { rd, rt, rs })
    } else if f == funct::SRLV {
        Some(Instruction::Srlv { rd, rt, rs })
    } else if f == funct::SRAV {
        Some(Instruction::Srav { rd, rt, rs })
    } else if f == funct::MULT {
        Some(Instruction::Mult { rs, rt })
    } else if f == funct::MULTU {
        Some(Instruction::Multu { rs, rt })
    } else if f == funct::DIV {
        Some(Instruction::Div { rs, rt })
    } else if f == funct::DIVU {
        Some(Instruction::Divu { rs, rt })
    } else if f == funct::ADD {
        Some(Instruction::Add { rd, rs, rt })
    } else if f == funct::ADDU {
        Some(Instruction::Addu { rd, rs, rt })
    } else if f == funct::SUB {
        Some(Instruction::Sub { rd, rs, rt })
    } else if f == funct::SUBU {
        Some(Instruction::Subu { rd, rs, rt })
    } else if f == funct::AND {
        Some(Instruction::And { rd, rs, rt })
    } else if f == funct::OR {
        Some(Instruction::Or { rd, rs, rt })
    } else if f == funct::XOR {
        Some(Instruction::Xor { rd, rs, rt })
    } else if f == funct::NOR {
        Some(Instruction::Nor { rd, rs, rt })
    } else if f == funct::SYSCALL {
        Some(Instruction::Syscall)
    } else {
        None
    }
}

/// The instruction a word stands for, or `None` for words the decoder does not handle.
pub open spec fn decode_spec(w: u32) -> Option<Instruction> {
    let rs = field_rs(w);
    let rt = field_rt(w);
    let imm = field_imm(w);
    let o = field_opcode(w);
    if o == op::SPECIAL {
        decode_r_spec(w)
    } else if o == op::J {
        Some(Instruction::Jump { target: (field_target(w) * 4) as u32 })
    } else if o == op::ADDI {
        Some(Instruction::Addi { rt, rs, imm })
    } else if o == op::ADDIU {
        Some(Instruction::Addiu { rt, rs, imm })
    } else if o == op::ANDI {
        Some(Instruction::Andi { rt, rs, imm })
    } else if o == op::ORI {
        Some(Instruction::Ori { rt, rs, imm })
    } else if o == op::XORI {
        Some(Instruction::Xori { rt, rs, imm })
    } else if o == op::BEQ {
        Some(Instruction::Beq { rs, rt, offset: imm })
    } else if o == op::BNE {
        Some(Instruction::Bne { rs, rt, offset: imm })
    } else {
        None
    }
}

fn decode_r_type(w: u32) -> (inst: Instruction)
    requires
        decode_r_spec(w) is Some,
    ensures
        inst == decode_r_spec(w)->0,
{
    let rs = rs(w);
    let rt = rt(w);
    let rd = rd(w);
    let shamt = shamt(w);
    let f = funct(w);
    if f == funct::SLL {
        Instruction::Sll { rd, rt, shamt }
    } else if f == funct::SRL {
        Instruction::Srl { rd, rt, shamt }
    } else if f == funct::SRA {
        Instruction::Sra { rd, rt, shamt }
    } else if f == funct::SLLV {
        Instruction::Sllv { rd, rt, rs }
    } else if f == funct::SRLV {
        Instruction::Srlv { rd, rt, rs }
    } else if f == funct::SRAV {
        Instruction::Srav { rd, rt, rs }
    } else if f == funct::MULT {
        Instruction::Mult { rs, rt }
    } else if f == funct::MULTU {
        Instruction::Multu { rs, rt }
    } else if f == funct::DIV {
        Instruction::Div { rs, rt }
    } else if f == funct::DIVU {
        Instruction::Divu { rs, rt }
    } else if f == funct::ADD {
        Instruction::Add { rd, rs, rt }
    } else if f == funct::ADDU {
        Instruction::Addu { rd, rs, rt }
    } else if f == funct::SUB {
        Instruction::Sub { rd, rs, rt }
    } else if f == funct::SUBU {
        Instruction::Subu { rd, rs, rt }
    } else if f == funct::AND {
        Instruction::And { rd, rs, rt }
    } else if f == funct::OR {
        Instruction::Or { rd, rs, rt }
    } else if f == funct::XOR {
        Instruction::Xor { rd, rs, rt }
    } else if f == funct::NOR {
        Instruction::Nor { rd, rs, rt }
    } else {
        Instruction::Syscall
    }
}

/// Decode a machine word. Words whose opcode (or, for SPECIAL, funct) the decoder does not
/// handle are outside its domain.
pub fn decode(word: u32) -> (inst: Instruction)
    requires
        decode_spec(word) is Some,
    ensures
        inst == decode_spec(word)->0,
{
    reveal(field_target);
    let rs = rs(word);
    let rt = rt(word);
    let imm = imm(word);
    let o = opcode(word);
    if o == op::SPECIAL {
        decode_r_type(word)
    } else if o == op::J {
        let t = target(word);
        assert(t < 0x0400_0000 ==> t << 2u32 == t * 4) by (bit_vector);
        Instruction::Jump { target: t << 2 }
    } else if o == op::ADDI {
        Instruction::Addi { rt, rs, imm }
    } else if o == op::ADDIU {
        Instruction::Addiu { rt, rs, imm }
    } else if o == op::ANDI {
        Instruction::Andi { rt, rs, imm }
    } else if o == op::ORI {
        Instruction::Ori { rt, rs, imm }
    } else if o == op::XORI {
        Instruction::Xori { rt, rs, imm }
    } else if o == op::BEQ {
        Instruction::Beq { rs, rt, offset: imm }
    } else {
        Instruction::Bne { rs, rt, offset: imm }
    }
}

/// Decode a machine word, or `None` where `decode` has no instruction for it.
pub fn try_decode(word: u32) -> (r: Option<Instruction>)
    ensures
        r == decode_spec(word),
{
    let o = opcode(word);
    let f = funct(word);
    let known = if o == op::SPECIAL {
        f == funct::SLL || f == funct::SRL || f == funct::SRA || f == funct::SLLV || f
            == funct::SRLV || f == funct::SRAV || f == funct::MULT || f == funct::MULTU || f
            == funct::DIV || f == funct::DIVU || f == funct::ADD || f == funct::ADDU || f
            == funct::SUB || f == funct::SUBU || f == funct::AND || f == funct::OR || f
            == funct::XOR || f == funct::NOR || f == funct::SYSCALL
    } else {
        o == op::J || o == op::ADDI || o == op::ADDIU || o == op::ANDI || o == op::ORI || o
            == op::XORI || o == op::BEQ || o == op::BNE
    };
    if known {
        Some(decode(word))
    } else {
        None
    }
}

// ---------------------------------------------------------------------------
// Encoding.

/// Every instruction but `LoadImmediate` has an encoding.
pub open spec fn encodable(inst: Instruction) -> bool {
    !(inst is LoadImmediate)
}

/// The machine word of an instruction.
pub open spec fn encode_spec(inst: Instruction) -> u32 {
    match inst {
        Instruction::Add { rd, rs, rt } => pack_r(funct::ADD, rs as int, rt as int, rd as int, 0),
        Instruction::Addu { rd, rs, rt } => pack_r(funct::ADDU, rs as int, rt as int, rd as int, 0),
        Instruction::Addi { rt, rs, imm } => pack_i(op::ADDI, rs as int, rt as int, imm),
        Instruction::Addiu { rt, rs, imm } => pack_i(op::ADDIU, rs as int, rt as int, imm),
        Instruction::And { rd, rs, rt } => pack_r(funct::AND, rs as int, rt as int, rd as int, 0),
        Instruction::Andi { rt, rs, imm } => pack_i(op::ANDI, rs as int, rt as int, imm),
        Instruction::Div { rs, rt } => pack_r(funct::DIV, rs as int, rt as int, 0, 0),
        Instruction::Divu { rs, rt } => pack_r(funct::DIVU, rs as int, rt as int, 0, 0),
        Instruction::Mult { rs, rt } => pack_r(funct::MULT, rs as int, rt as int, 0, 0),
        Instruction::Multu { rs, rt } => pack_r(funct::MULTU, rs as int, rt as int, 0, 0),
        Instruction::Nor { rd, rs, rt } => pack_r(funct::NOR, rs as int, rt as int, rd as int, 0),
        Instruction::Or { rd, rs, rt } => pack_r(funct::OR, rs as int, rt as int, rd as int, 0),
        Instruction::Ori { rt, rs, imm } => pack_i(op::ORI, rs as int, rt as int, imm),
        Instruction::Sll { rd, rt, shamt } => pack_r(funct::SLL, 0, rt as int, rd as int, shamt),
        Instruction::Sllv { rd, rt, rs } => pack_r(funct::SLLV, rs as int, rt as int, rd as int, 0),
        Instruction::Sra { rd, rt, shamt } => pack_r(funct::SRA, 0, rt as int, rd as int, shamt),
        Instruction::Srav { rd, rt, rs } => pack_r(funct::SRAV, rs as int, rt as int, rd as int, 0),
        Instruction::Srl { rd, rt, shamt } => pack_r(funct::SRL, 0, rt as int, rd as int, shamt),
        Instruction::Srlv { rd, rt, rs } => pack_r(funct::SRLV, rs as int, rt as int, rd as int, 0),
        Instruction::Sub { rd, rs, rt } => pack_r(funct::SUB, rs as int, rt as int, rd as int, 0),
        Instruction::Subu { rd, rs, rt } => pack_r(funct::SUBU, rs as int, rt as int, rd as int, 0),
        Instruction::Xor { rd, rs, rt } => pack_r(funct::XOR, rs as int, rt as int, rd as int, 0),
        Instruction::Xori { rt, rs, imm } => pack_i(op::XORI, rs as int, rt as int, imm),
        Instruction::Beq { rs, rt, offset } => pack_i(op::BEQ, rs as int, rt as int, offset),
        Instruction::Bne { rs, rt, offset } => pack_i(op::BNE, rs as int, rt as int, offset),
        Instruction::Jump { target } => pack_j(op::J, target / 4),
        Instruction::Syscall => pack_r(funct::SYSCALL, 0, 0, 0, 0),
        Instruction::LoadImmediate { .. } => 0,
    }
}

/// Encode an instruction as a machine word. `LoadImmediate` has no encoding.
pub fn encode(inst: &Instruction) -> (w: u32)
    requires
        encodable(*inst),
    ensures
        w == encode_spec(*inst),
{
    match inst {
        Instruction::Add { rd, rs, rt } => r_type(funct::ADD, *rs, *rt, *rd, 0),
        Instruction::Addu { rd, rs, rt } => r_type(funct::ADDU, *rs, *rt, *rd, 0),
        Instruction::Addi { rt, rs, imm } => i_type(0x08, *rs, *rt, *imm),
        Instruction::Addiu { rt, rs, imm } => i_type(0x09, *rs, *rt, *imm),
        Instruction::Andi { rt, rs, imm } => i_type(0x0c, *rs, *rt, *imm),
        Instruction::And { rd, rs, rt } => r_type(funct::AND, *rs, *rt, *rd, 0),
        Instruction::Div { rs, rt } => r_type(funct::DIV, *rs, *rt, 0, 0),
        Instruction::Divu { rs, rt } => r_type(funct::DIVU, *rs, *rt, 0, 0),
        Instruction::Mult { rs, rt } => r_type(funct::MULT, *rs, *rt, 0, 0),
        Instruction::Multu { rs, rt } => r_type(funct::MULTU, *rs, *rt, 0, 0),
        Instruction::Nor { rd, rs, rt } => r_type(funct::NOR, *rs, *rt, *rd, 0),
        Instruction::Or { rd, rs, rt } => r_type(funct::OR, *rs, *rt, *rd, 0),
        Instruction::Ori { rt, rs, imm } => i_type(op::ORI, *rs, *rt, *imm),
        Instruction::Sll { rd, rt, shamt } => r_type(funct::SLL, 0, *rt, *rd, *shamt),
        Instruction::Sllv { rd, rt, rs } => r_type(funct::SLLV, *rs, *rt, *rd, 0),
        Instruction::Sra { rd, rt, shamt } => r_type(funct::SRA, 0, *rt, *rd, *shamt),
        Instruction::Srav { rd, rt, rs } => r_type(funct::SRAV, *rs, *rt, *rd, 0),
        Instruction::Srl { rd, rt, shamt } => r_type(funct::SRL, 0, *rt, *rd, *shamt),
        Instruction::Srlv { rd, rt, rs } => r_type(funct::SRLV, *rs, *rt, *rd, 0),
        Instruction::Sub { rd, rs, rt } => r_type(funct::SUB, *rs, *rt, *rd, 0),
        Instruction::Subu { rd, rs, rt } => r_type(funct::SUBU, *rs, *rt, *rd, 0),
        Instruction::Xor { rd, rs, rt } => r_type(funct::XOR, *rs, *rt, *rd, 0),
        Instruction::Xori { rt, rs, imm } => i_type(0x0e, *rs, *rt, *imm),
        Instruction::Beq { rs, rt, offset } => i_type(op::BEQ, *rs, *rt, *offset),
        Instruction::Bne { rs, rt, offset } => i_type(op::BNE, *rs, *rt, *offset),
        Instruction::Jump { target } => {
            let t = *target;
            assert(t >> 2u32 == t / 4) by (bit_vector);
            j_type(op::J, t >> 2)
        },
        Instruction::Syscall => r_type(funct::SYSCALL, 0, 0, 0, 0),
        Instruction::LoadImmediate { .. } => {
            proof {
                assert(false);
            }
            0
        },
    }
}

// ---------------------------------------------------------------------------
// Laws relating encoding and decoding.

/// An instruction whose fields all fit the encoding: register numbers and shift amounts below 32,
/// and a jump target that is word aligned within the 256 MiB region a J-type word can name.
pub open spec fn well_formed(inst: Instruction) -> bool {
    match inst {
        Instruction::Add { rd, rs, rt } | Instruction::Addu { rd, rs, rt } | Instruction::And {
            rd,
            rs,
            rt,
        } | Instruction::Nor { rd, rs, rt } | Instruction::Or { rd, rs, rt } | Instruction::Sub {
            rd,
            rs,
            rt,
        } | Instruction::Subu { rd, rs, rt } | Instruction::Xor { rd, rs, rt } | Instruction::Sllv {
            rd,
            rt,
            rs,
        } | Instruction::Srav { rd, rt, rs } | Instruction::Srlv { rd, rt, rs } => rd < 32 && rs
            < 32 && rt < 32,
        Instruction::Addi { rt, rs, .. } | Instruction::Addiu { rt, rs, .. } | Instruction::Andi {
            rt,
            rs,
            ..
        } | Instruction::Ori { rt, rs, .. } | Instruction::Xori { rt, rs, .. } | Instruction::Beq {
            rs,
            rt,
            ..
        } | Instruction::Bne { rs, rt, .. } | Instruction::Div { rs, rt } | Instruction::Divu {
            rs,
            rt,
        } | Instruction::Mult { rs, rt } | Instruction::Multu { rs, rt } => rs < 32 && rt < 32,
        Instruction::Sll { rd, rt, shamt } | Instruction::Sra { rd, rt, shamt } | Instruction::Srl {
            rd,
            rt,
            shamt,
        } => rd < 32 && rt < 32 && shamt < 32,
        Instruction::Jump { target } => target % 4 == 0 && target < 0x1000_0000,
        Instruction::Syscall => true,
        Instruction::LoadImmediate { .. } => false,
    }
}

proof fn lemma_r_fields(funct: u32, rs: int, rt: int, rd: int, shamt: u32)
    requires
        rs >= 0,
        rt >= 0,
        rd >= 0,
    ensures
        field_opcode(pack_r(funct, rs, rt, rd, shamt)) == 0,
        field_rs(pack_r(funct, rs, rt, rd, shamt)) == rs % 32,
        field_rt(pack_r(funct, rs, rt, rd, shamt)) == rt % 32,
        field_rd(pack_r(funct, rs, rt, rd, shamt)) == rd % 32,
        field_shamt(pack_r(funct, rs, rt, rd, shamt)) == shamt % 32,
        field_funct(pack_r(funct, rs, rt, rd, shamt)) == funct % 64,
{
    reveal(pack_r);
    reveal(field_opcode);
    reveal(field_rs);
    reveal(field_rt);
    reveal(field_rd);
    reveal(field_shamt);
    reveal(field_funct);
    reveal(field_imm);
    reveal(field_target);
    let a = (rs % 32) as u32;
    let b = (rt % 32) as u32;
    let c = (rd % 32) as u32;
    let d = shamt % 32;
    let e = funct % 64;
    let w = pack_r(funct, rs, rt, rd, shamt);
    assert(w == a * 0x0020_0000 + b * 0x0001_0000 + c * 0x0800 + d * 0x40 + e);
    assert(w / 0x0400_0000 == 0 && (w / 0x0020_0000) % 32 == a && (w / 0x0001_0000) % 32 == b && (w
        / 0x0800) % 32 == c && (w / 0x40) % 32 == d && w % 64 == e) by (bit_vector)
        requires
            w == a * 0x0020_0000 + b * 0x0001_0000 + c * 0x0800 + d * 0x40 + e,
            a < 32,
            b < 32,
            c < 32,
            d < 32,
            e < 64,
    ;
}

proof fn lemma_i_fields(opcode: u32, rs: int, rt: int, imm: i16)
    requires
        rs >= 0,
        rt >= 0,
    ensures
        field_opcode(pack_i(opcode, rs, rt, imm)) == opcode % 64,
        field_rs(pack_i(opcode, rs, rt, imm)) == rs % 32,
        field_rt(pack_i(opcode, rs, rt, imm)) == rt % 32,
        field_imm(pack_i(opcode, rs, rt, imm)) == imm,
{
    reveal(pack_i);
    reveal(field_opcode);
    reveal(field_rs);
    reveal(field_rt);
    reveal(field_rd);
    reveal(field_shamt);
    reveal(field_funct);
    reveal(field_imm);
    reveal(field_target);
    let o = opcode % 64;
    let a = (rs % 32) as u32;
    let b = (rt % 32) as u32;
    let u = bits16(imm);
    let w = pack_i(opcode, rs, rt, imm);
    assert(u < 0x1_0000);
    assert(w == o * 0x0400_0000 + a * 0x0020_0000 + b * 0x0001_0000 + u);
    assert(w / 0x0400_0000 == o && (w / 0x0020_0000) % 32 == a && (w / 0x0001_0000) % 32 == b && w
        % 0x1_0000 == u) by (bit_vector)
        requires
            w == o * 0x0400_0000 + a * 0x0020_0000 + b * 0x0001_0000 + u,
            o < 64,
            a < 32,
            b < 32,
            u < 0x1_0000,
    ;
    assert(signed16(u as int) == imm);
}

proof fn lemma_j_fields(opcode: u32, target: u32)
    ensures
        field_opcode(pack_j(opcode, target)) == opcode % 64,
        field_target(pack_j(opcode, target)) == target % 0x0400_0000,
{
    reveal(pack_j);
    reveal(field_opcode);
    reveal(field_rs);
    reveal(field_rt);
    reveal(field_rd);
    reveal(field_shamt);
    reveal(field_funct);
    reveal(field_imm);
    reveal(field_target);
    let o = opcode % 64;
    let t = target % 0x0400_0000;
    let w = pack_j(opcode, target);
    assert(w == o * 0x0400_0000 + t);
    assert(w / 0x0400_0000 == o && w % 0x0400_0000 == t) by (bit_vector)
        requires
            w == o * 0x0400_0000 + t,
            o < 64,
            t < 0x0400_0000,
    ;
}

proof fn lemma_decode_encode_r3(inst: Instruction)
    requires
        inst is Add || inst is Addu || inst is And || inst is Nor || inst is Or || inst is Sub
            || inst is Subu || inst is Xor,
    ensures
        decode_spec(encode_spec(inst)) == Some(masked(inst)),
{
    match inst {
        Instruction::Add { rd, rs, rt } => lemma_r_fields(funct::ADD, rs as int, rt as int, rd as int, 0),
        Instruction::Addu { rd, rs, rt } => lemma_r_fields(funct::ADDU, rs as int, rt as int, rd as int, 0),
        Instruction::And { rd, rs, rt } => lemma_r_fields(funct::AND, rs as int, rt as int, rd as int, 0),
        Instruction::Nor { rd, rs, rt } => lemma_r_fields(funct::NOR, rs as int, rt as int, rd as int, 0),
        Instruction::Or { rd, rs, rt } => lemma_r_fields(funct::OR, rs as int, rt as int, rd as int, 0),
        Instruction::Sub { rd, rs, rt } => lemma_r_fields(funct::SUB, rs as int, rt as int, rd as int, 0),
        Instruction::Subu { rd, rs, rt } => lemma_r_fields(funct::SUBU, rs as int, rt as int, rd as int, 0),
        Instruction::Xor { rd, rs, rt } => lemma_r_fields(funct::XOR, rs as int, rt as int, rd as int, 0),
        _ => {},
    }
}

proof fn lemma_decode_encode_shift(inst: Instruction)
    requires
        inst is Sll || inst is Sra || inst is Srl || inst is Sllv || inst is Srav || inst is Srlv,
    ensures
        decode_spec(encode_spec(inst)) == Some(masked(inst)),
{
    match inst {
        Instruction::Sll { rd, rt, shamt } => lemma_r_fields(funct::SLL, 0, rt as int, rd as int, shamt),
        Instruction::Sllv { rd, rt, rs } => lemma_r_fields(funct::SLLV, rs as int, rt as int, rd as int, 0),
        Instruction::Sra { rd, rt, shamt } => lemma_r_fields(funct::SRA, 0, rt as int, rd as int, shamt),
        Instruction::Srav { rd, rt, rs } => lemma_r_fields(funct::SRAV, rs as int, rt as int, rd as int, 0),
        Instruction::Srl { rd, rt, shamt } => lemma_r_fields(funct::SRL, 0, rt as int, rd as int, shamt),
        Instruction::Srlv { rd, rt, rs } => lemma_r_fields(funct::SRLV, rs as int, rt as int, rd as int, 0),
        _ => {},
    }
}

proof fn lemma_decode_encode_muldiv(inst: Instruction)
    requires
        inst is Div || inst is Divu || inst is Mult || inst is Multu || inst is Syscall,
    ensures
        decode_spec(encode_spec(inst)) == Some(masked(inst)),
{
    match inst {
        Instruction::Div { rs, rt } => lemma_r_fields(funct::DIV, rs as int, rt as int, 0, 0),
        Instruction::Divu { rs, rt } => lemma_r_fields(funct::DIVU, rs as int, rt as int, 0, 0),
        Instruction::Mult { rs, rt } => lemma_r_fields(funct::MULT, rs as int, rt as int, 0, 0),
        Instruction::Multu { rs, rt } => lemma_r_fields(funct::MULTU, rs as int, rt as int, 0, 0),
        Instruction::Syscall => lemma_r_fields(funct::SYSCALL, 0, 0, 0, 0),
        _ => {},
    }
}

proof fn lemma_decode_encode_imm(inst: Instruction)
    requires
        inst is Addi || inst is Addiu || inst is Andi || inst is Ori || inst is Xori || inst is Beq
            || inst is Bne || inst is Jump,
    ensures
        decode_spec(encode_spec(inst)) == Some(masked(inst)),
{
    match inst {
        Instruction::Addi { rt, rs, imm } => lemma_i_fields(op::ADDI, rs as int, rt as int, imm),
        Instruction::Addiu { rt, rs, imm } => lemma_i_fields(op::ADDIU, rs as int, rt as int, imm),
        Instruction::Andi { rt, rs, imm } => lemma_i_fields(op::ANDI, rs as int, rt as int, imm),
        Instruction::Ori { rt, rs, imm } => lemma_i_fields(op::ORI, rs as int, rt as int, imm),
        Instruction::Xori { rt, rs, imm } => lemma_i_fields(op::XORI, rs as int, rt as int, imm),
        Instruction::Beq { rs, rt, offset } => lemma_i_fields(op::BEQ, rs as int, rt as int, offset),
        Instruction::Bne { rs, rt, offset } => lemma_i_fields(op::BNE, rs as int, rt as int, offset),
        Instruction::Jump { target } => lemma_j_fields(op::J, target / 4),
        _ => {},
    }
}

/// The instruction with every field cut to the width the encoding gives it.
pub open spec fn masked(inst: Instruction) -> Instruction {
    match inst {
        Instruction::Add { rd, rs, rt } => Instruction::Add { rd: rd % 32, rs: rs % 32, rt: rt % 32 },
        Instruction::Addu { rd, rs, rt } => Instruction::Addu { rd: rd % 32, rs: rs % 32, rt: rt % 32 },
        Instruction::Addi { rt, rs, imm } => Instruction::Addi { rt: rt % 32, rs: rs % 32, imm },
        Instruction::Addiu { rt, rs, imm } => Instruction::Addiu { rt: rt % 32, rs: rs % 32, imm },
        Instruction::And { rd, rs, rt } => Instruction::And { rd: rd % 32, rs: rs % 32, rt: rt % 32 },
        Instruction::Andi { rt, rs, imm } => Instruction::Andi { rt: rt % 32, rs: rs % 32, imm },
        Instruction::Div { rs, rt } => Instruction::Div { rs: rs % 32, rt: rt % 32 },
        Instruction::Divu { rs, rt } => Instruction::Divu { rs: rs % 32, rt: rt % 32 },
        Instruction::Mult { rs, rt } => Instruction::Mult { rs: rs % 32, rt: rt % 32 },
        Instruction::Multu { rs, rt } => Instruction::Multu { rs: rs % 32, rt: rt % 32 },
        Instruction::Nor { rd, rs, rt } => Instruction::Nor { rd: rd % 32, rs: rs % 32, rt: rt % 32 },
        Instruction::Or { rd, rs, rt } => Instruction::Or { rd: rd % 32, rs: rs % 32, rt: rt % 32 },
        Instruction::Ori { rt, rs, imm } => Instruction::Ori { rt: rt % 32, rs: rs % 32, imm },
        Instruction::Sll { rd, rt, shamt } => Instruction::Sll { rd: rd % 32, rt: rt % 32, shamt: shamt % 32 },
        Instruction::Sllv { rd, rt, rs } => Instruction::Sllv { rd: rd % 32, rt: rt % 32, rs: rs % 32 },
        Instruction::Sra { rd, rt, shamt } => Instruction::Sra { rd: rd % 32, rt: rt % 32, shamt: shamt % 32 },
        Instruction::Srav { rd, rt, rs } => Instruction::Srav { rd: rd % 32, rt: rt % 32, rs: rs % 32 },
        Instruction::Srl { rd, rt, shamt } => Instruction::Srl { rd: rd % 32, rt: rt % 32, shamt: shamt % 32 },
        Instruction::Srlv { rd, rt, rs } => Instruction::Srlv { rd: rd % 32, rt: rt % 32, rs: rs % 32 },
        Instruction::Sub { rd, rs, rt } => Instruction::Sub { rd: rd % 32, rs: rs % 32, rt: rt % 32 },
        Instruction::Subu { rd, rs, rt } => Instruction::Subu { rd: rd % 32, rs: rs % 32, rt: rt % 32 },
        Instruction::Xor { rd, rs, rt } => Instruction::Xor { rd: rd % 32, rs: rs % 32, rt: rt % 32 },
        Instruction::Xori { rt, rs, imm } => Instruction::Xori { rt: rt % 32, rs: rs % 32, imm },
        Instruction::Beq { rs, rt, offset } => Instruction::Beq { rs: rs % 32, rt: rt % 32, offset },
        Instruction::Bne { rs, rt, offset } => Instruction::Bne { rs: rs % 32, rt: rt % 32, offset },
        Instruction::Jump { target } => Instruction::Jump { target: (((target / 4) % 0x0400_0000) * 4) as u32 },
        Instruction::Syscall => Instruction::Syscall,
        Instruction::LoadImmediate { rd, imm } => Instruction::LoadImmediate { rd, imm },
    }
}

/// Decoding an encoding gives the instruction back with its fields cut to their widths:
/// register numbers and shift amounts modulo 32, a jump target to a word address within
/// its 256 MiB region.
pub proof fn lemma_decode_encode_masked(inst: Instruction)
    requires
        encodable(inst),
    ensures
        decode_spec(encode_spec(inst)) == Some(masked(inst)),
{
    if inst is Add || inst is Addu || inst is And || inst is Nor || inst is Or || inst is Sub
        || inst is Subu || inst is Xor {
        lemma_decode_encode_r3(inst);
    } else if inst is Sll || inst is Sra || inst is Srl || inst is Sllv || inst is Srav
        || inst is Srlv {
        lemma_decode_encode_shift(inst);
    } else if inst is Div || inst is Divu || inst is Mult || inst is Multu || inst is Syscall {
        lemma_decode_encode_muldiv(inst);
    } else {
        lemma_decode_encode_imm(inst);
    }
}

proof fn lemma_pack_r_masked(funct: u32, rs: int, rt: int, rd: int, shamt: u32)
    requires
        rs >= 0,
        rt >= 0,
        rd >= 0,
    ensures
        pack_r(funct, rs % 32, rt % 32, rd % 32, shamt % 32) == pack_r(funct, rs, rt, rd, shamt),
{
    reveal(pack_r);
}

proof fn lemma_pack_i_masked(opcode: u32, rs: int, rt: int, imm: i16)
    requires
        rs >= 0,
        rt >= 0,
    ensures
        pack_i(opcode, rs % 32, rt % 32, imm) == pack_i(opcode, rs, rt, imm),
{
    reveal(pack_i);
}

proof fn lemma_pack_j_masked(opcode: u32, target: u32)
    ensures
        pack_j(opcode, ((((target / 4) % 0x0400_0000) * 4) as u32) / 4) == pack_j(opcode, target / 4),
{
    reveal(pack_j);
}

/// Masking changes nothing about the encoding.
pub proof fn lemma_encode_masked(inst: Instruction)
    requires
        encodable(inst),
    ensures
        encode_spec(masked(inst)) == encode_spec(inst),
{
    match inst {
        Instruction::Add { rd, rs, rt } | Instruction::Addu { rd, rs, rt } | Instruction::And {
            rd,
            rs,
            rt,
        } | Instruction::Nor { rd, rs, rt } | Instruction::Or { rd, rs, rt } | Instruction::Sub {
            rd,
            rs,
            rt,
        } | Instruction::Subu { rd, rs, rt } | Instruction::Xor { rd, rs, rt } | Instruction::Sllv {
            rd,
            rt,
            rs,
        } | Instruction::Srav { rd, rt, rs } | Instruction::Srlv { rd, rt, rs } => {
            lemma_pack_r_masked(funct::ADD, rs as int, rt as int, rd as int, 0);
            lemma_pack_r_masked(funct::ADDU, rs as int, rt as int, rd as int, 0);
            lemma_pack_r_masked(funct::AND, rs as int, rt as int, rd as int, 0);
            lemma_pack_r_masked(funct::NOR, rs as int, rt as int, rd as int, 0);
            lemma_pack_r_masked(funct::OR, rs as int, rt as int, rd as int, 0);
            lemma_pack_r_masked(funct::SUB, rs as int, rt as int, rd as int, 0);
            lemma_pack_r_masked(funct::SUBU, rs as int, rt as int, rd as int, 0);
            lemma_pack_r_masked(funct::XOR, rs as int, rt as int, rd as int, 0);
            lemma_pack_r_masked(funct::SLLV, rs as int, rt as int, rd as int, 0);
            lemma_pack_r_masked(funct::SRAV, rs as int, rt as int, rd as int, 0);
            lemma_pack_r_masked(funct::SRLV, rs as int, rt as int, rd as int, 0);
        },
        Instruction::Sll { rd, rt, shamt } | Instruction::Sra { rd, rt, shamt } | Instruction::Srl {
            rd,
            rt,
            shamt,
        } => {
            lemma_pack_r_masked(funct::SLL, 0, rt as int, rd as int, shamt);
            lemma_pack_r_masked(funct::SRA, 0, rt as int, rd as int, shamt);
            lemma_pack_r_masked(funct::SRL, 0, rt as int, rd as int, shamt);
        },
        Instruction::Div { rs, rt } | Instruction::Divu { rs, rt } | Instruction::Mult { rs, rt }
        | Instruction::Multu { rs, rt } => {
            lemma_pack_r_masked(funct::DIV, rs as int, rt as int, 0, 0);
            lemma_pack_r_masked(funct::DIVU, rs as int, rt as int, 0, 0);
            lemma_pack_r_masked(funct::MULT, rs as int, rt as int, 0, 0);
            lemma_pack_r_masked(funct::MULTU, rs as int, rt as int, 0, 0);
        },
        Instruction::Addi { rt, rs, imm } | Instruction::Addiu { rt, rs, imm } | Instruction::Andi {
            rt,
            rs,
            imm,
        } | Instruction::Ori { rt, rs, imm } | Instruction::Xori { rt, rs, imm } => {
            lemma_pack_i_masked(op::ADDI, rs as int, rt as int, imm);
            lemma_pack_i_masked(op::ADDIU, rs as int, rt as int, imm);
            lemma_pack_i_masked(op::ANDI, rs as int, rt as int, imm);
            lemma_pack_i_masked(op::ORI, rs as int, rt as int, imm);
            lemma_pack_i_masked(op::XORI, rs as int, rt as int, imm);
        },
        Instruction::Beq { rs, rt, offset } | Instruction::Bne { rs, rt, offset } => {
            lemma_pack_i_masked(op::BEQ, rs as int, rt as int, offset);
            lemma_pack_i_masked(op::BNE, rs as int, rt as int, offset);
        },
        Instruction::Jump { target } => {
            lemma_pack_j_masked(op::J, target);
        },
        Instruction::Syscall => {
            lemma_pack_r_masked(funct::SYSCALL, 0, 0, 0, 0);
        },
        Instruction::LoadImmediate { .. } => {},
    }
}

/// The word of an instruction is a fixed point of decoding then encoding.
pub proof fn lemma_encoded_word_roundtrip(inst: Instruction)
    requires
        encodable(inst),
    ensures
        decode_spec(encode_spec(inst)) is Some,
        encode_spec(decode_spec(encode_spec(inst))->0) == encode_spec(inst),
{
    lemma_decode_encode_masked(inst);
    lemma_encode_masked(inst);
}

/// A well-formed instruction is its own masked form.
pub proof fn lemma_well_formed_masked(inst: Instruction)
    requires
        well_formed(inst),
    ensures
        masked(inst) == inst,
{
    if let Instruction::Jump { target } = inst {
        assert((((target / 4) % 0x0400_0000) * 4) == target);
    }
}

/// Decoding the encoding of a well-formed instruction gives the instruction back.
pub proof fn lemma_decode_encode(inst: Instruction)
    requires
        well_formed(inst),
    ensures
        decode_spec(encode_spec(inst)) == Some(inst),
{
    lemma_decode_encode_masked(inst);
    lemma_well_formed_masked(inst);
}

/// Every instruction the decoder produces is well formed.
pub proof fn lemma_decoded_well_formed(w: u32)
    requires
        decode_spec(w) is Some,
    ensures
        well_formed(decode_spec(w)->0),
{
    reveal(field_target);
    reveal(field_rs);
    reveal(field_rt);
    reveal(field_rd);
    reveal(field_shamt);
    assert(field_target(w) < 0x0400_0000);
}

/// Encoding then decoding a decoded word reproduces the same instruction: re-encoding only
/// clears the fields that the instruction's format ignores.
pub proof fn lemma_encode_decode_normal_form(w: u32)
    requires
        decode_spec(w) is Some,
    ensures
        decode_spec(encode_spec(decode_spec(w)->0)) == decode_spec(w),
{
    lemma_decoded_well_formed(w);
    lemma_decode_encode(decode_spec(w)->0);
}

/// Words of the I-type and J-type formats carry no ignored field: encoding their decoding
/// gives back the very same word.
pub proof fn lemma_encode_decode_exact(w: u32)
    requires
        decode_spec(w) is Some,
        field_opcode(w) != op::SPECIAL,
    ensures
        encode_spec(decode_spec(w)->0) == w,
{
    reveal(pack_i);
    reveal(pack_j);
    reveal(field_opcode);
    reveal(field_rs);
    reveal(field_rt);
    reveal(field_rd);
    reveal(field_shamt);
    reveal(field_funct);
    reveal(field_imm);
    reveal(field_target);
    let o = field_opcode(w);
    let a = field_rs(w) as u32;
    let b = field_rt(w) as u32;
    let u = w % 0x1_0000;
    let t = field_target(w);
    assert(w == o * 0x0400_0000 + a * 0x0020_0000 + b * 0x0001_0000 + u && w == o * 0x0400_0000
        + t && o < 64) by (bit_vector)
        requires
            o == w / 0x0400_0000,
            a == (w / 0x0020_0000) % 32,
            b == (w / 0x0001_0000) % 32,
            u == w % 0x1_0000,
            t == w % 0x0400_0000,
    ;
    assert(bits16(signed16(u as int)) == u);
}

// ---------------------------------------------------------------------------
// The MIPS encoding table.

/// `w` is an R-format word (opcode 0) with the given register fields, shift amount and funct.
pub open spec fn r_format(w: u32, rs: int, rt: int, rd: int, shamt: int, funct: u32) -> bool {
    &&& field_opcode(w) == 0
    &&& field_rs(w) == rs % 32
    &&& field_rt(w) == rt % 32
    &&& field_rd(w) == rd % 32
    &&& field_shamt(w) == shamt % 32
    &&& field_funct(w) == funct
}

/// `w` is an I-format word with the given opcode, register fields and 16-bit immediate.
pub open spec fn i_format(w: u32, opcode: u32, rs: int, rt: int, imm: i16) -> bool {
    &&& field_opcode(w) == opcode
    &&& field_rs(w) == rs % 32
    &&& field_rt(w) == rt % 32
    &&& field_imm(w) == imm
}

/// Every field of an encoded word, by the MIPS32 table: R-format instructions have opcode 0
/// and their funct code (`add` 0x20, `addu` 0x21, `sub` 0x22, `subu` 0x23, `and` 0x24,
/// `or` 0x25, `xor` 0x26, `nor` 0x27, `sll` 0x00, `srl` 0x02, `sra` 0x03, `sllv` 0x04,
/// `srlv` 0x06, `srav` 0x07, `mult` 0x18, `multu` 0x19, `div` 0x1a, `divu` 0x1b,
/// `syscall` 0x0c), with every field the instruction does not use set to zero (the rs field
/// of a shift by a constant, the rd and shift fields of multiply and divide, the shift field
/// of the others); I-format instructions carry their opcode (`beq` 4, `bne` 5, `addi` 8,
/// `addiu` 9, `andi` 0x0c, `ori` 0x0d, `xori` 0x0e); `j` has opcode 2 and the word index of
/// its target.
pub proof fn lemma_encode_fields(inst: Instruction)
    requires
        encodable(inst),
    ensures
        ({
            let w = encode_spec(inst);
            match inst {
                Instruction::Add { rd, rs, rt } => r_format(w, rs as int, rt as int, rd as int, 0, 0x20),
                Instruction::Addu { rd, rs, rt } => r_format(w, rs as int, rt as int, rd as int, 0, 0x21),
                Instruction::Sub { rd, rs, rt } => r_format(w, rs as int, rt as int, rd as int, 0, 0x22),
                Instruction::Subu { rd, rs, rt } => r_format(w, rs as int, rt as int, rd as int, 0, 0x23),
                Instruction::And { rd, rs, rt } => r_format(w, rs as int, rt as int, rd as int, 0, 0x24),
                Instruction::Or { rd, rs, rt } => r_format(w, rs as int, rt as int, rd as int, 0, 0x25),
                Instruction::Xor { rd, rs, rt } => r_format(w, rs as int, rt as int, rd as int, 0, 0x26),
                Instruction::Nor { rd, rs, rt } => r_format(w, rs as int, rt as int, rd as int, 0, 0x27),
                Instruction::Sll { rd, rt, shamt } => r_format(w, 0, rt as int, rd as int, shamt as int, 0x00),
                Instruction::Srl { rd, rt, shamt } => r_format(w, 0, rt as int, rd as int, shamt as int, 0x02),
                Instruction::Sra { rd, rt, shamt } => r_format(w, 0, rt as int, rd as int, shamt as int, 0x03),
                Instruction::Sllv { rd, rt, rs } => r_format(w, rs as int, rt as int, rd as int, 0, 0x04),
                Instruction::Srlv { rd, rt, rs } => r_format(w, rs as int, rt as int, rd as int, 0, 0x06),
                Instruction::Srav { rd, rt, rs } => r_format(w, rs as int, rt as int, rd as int, 0, 0x07),
                Instruction::Mult { rs, rt } => r_format(w, rs as int, rt as int, 0, 0, 0x18),
                Instruction::Multu { rs, rt } => r_format(w, rs as int, rt as int, 0, 0, 0x19),
                Instruction::Div { rs, rt } => r_format(w, rs as int, rt as int, 0, 0, 0x1a),
                Instruction::Divu { rs, rt } => r_format(w, rs as int, rt as int, 0, 0, 0x1b),
                Instruction::Syscall => r_format(w, 0, 0, 0, 0, 0x0c),
                Instruction::Beq { rs, rt, offset } => i_format(w, 4, rs as int, rt as int, offset),
                Instruction::Bne { rs, rt, offset } => i_format(w, 5, rs as int, rt as int, offset),
                Instruction::Addi { rt, rs, imm } => i_format(w, 8, rs as int, rt as int, imm),
                Instruction::Addiu { rt, rs, imm } => i_format(w, 9, rs as int, rt as int, imm),
                Instruction::Andi { rt, rs, imm } => i_format(w, 0x0c, rs as int, rt as int, imm),
                Instruction::Ori { rt, rs, imm } => i_format(w, 0x0d, rs as int, rt as int, imm),
                Instruction::Xori { rt, rs, imm } => i_format(w, 0x0e, rs as int, rt as int, imm),
                Instruction::Jump { target } => field_opcode(w) == 2 && field_target(w) == (target / 4)
                    % 0x0400_0000,
                Instruction::LoadImmediate { .. } => false,
            }
        }),
{
    match inst {
        Instruction::Add { rd, rs, rt } => lemma_r_fields(funct::ADD, rs as int, rt as int, rd as int, 0),
        Instruction::Addu { rd, rs, rt } => lemma_r_fields(funct::ADDU, rs as int, rt as int, rd as int, 0),
        Instruction::Sub { rd, rs, rt } => lemma_r_fields(funct::SUB, rs as int, rt as int, rd as int, 0),
        Instruction::Subu { rd, rs, rt } => lemma_r_fields(funct::SUBU, rs as int, rt as int, rd as int, 0),
        Instruction::And { rd, rs, rt } => lemma_r_fields(funct::AND, rs as int, rt as int, rd as int, 0),
        Instruction::Or { rd, rs, rt } => lemma_r_fields(funct::OR, rs as int, rt as int, rd as int, 0),
        Instruction::Xor { rd, rs, rt } => lemma_r_fields(funct::XOR, rs as int, rt as int, rd as int, 0),
        Instruction::Nor { rd, rs, rt } => lemma_r_fields(funct::NOR, rs as int, rt as int, rd as int, 0),
        Instruction::Sll { rd, rt, shamt } => lemma_r_fields(funct::SLL, 0, rt as int, rd as int, shamt),
        Instruction::Srl { rd, rt, shamt } => lemma_r_fields(funct::SRL, 0, rt as int, rd as int, shamt),
        Instruction::Sra { rd, rt, shamt } => lemma_r_fields(funct::SRA, 0, rt as int, rd as int, shamt),
        Instruction::Sllv { rd, rt, rs } => lemma_r_fields(funct::SLLV, rs as int, rt as int, rd as int, 0),
        Instruction::Srlv { rd, rt, rs } => lemma_r_fields(funct::SRLV, rs as int, rt as int, rd as int, 0),
        Instruction::Srav { rd, rt, rs } => lemma_r_fields(funct::SRAV, rs as int, rt as int, rd as int, 0),
        Instruction::Mult { rs, rt } => lemma_r_fields(funct::MULT, rs as int, rt as int, 0, 0),
        Instruction::Multu { rs, rt } => lemma_r_fields(funct::MULTU, rs as int, rt as int, 0, 0),
        Instruction::Div { rs, rt } => lemma_r_fields(funct::DIV, rs as int, rt as int, 0, 0),
        Instruction::Divu { rs, rt } => lemma_r_fields(funct::DIVU, rs as int, rt as int, 0, 0),
        Instruction::Syscall => lemma_r_fields(funct::SYSCALL, 0, 0, 0, 0),
        Instruction::Beq { rs, rt, offset } => lemma_i_fields(op::BEQ, rs as int, rt as int, offset),
        Instruction::Bne { rs, rt, offset } => lemma_i_fields(op::BNE, rs as int, rt as int, offset),
        Instruction::Addi { rt, rs, imm } => lemma_i_fields(op::ADDI, rs as int, rt as int, imm),
        Instruction::Addiu { rt, rs, imm } => lemma_i_fields(op::ADDIU, rs as int, rt as int, imm),
        Instruction::Andi { rt, rs, imm } => lemma_i_fields(op::ANDI, rs as int, rt as int, imm),
        Instruction::Ori { rt, rs, imm } => lemma_i_fields(op::ORI, rs as int, rt as int, imm),
        Instruction::Xori { rt, rs, imm } => lemma_i_fields(op::XORI, rs as int, rt as int, imm),
        Instruction::Jump { target } => lemma_j_fields(op::J, target / 4),
        Instruction::LoadImmediate { .. } => {},
    }
}

/// The fields of a word determine it: two R-format words with the same six fields are the
/// same word, and so are two words with the same opcode, rs, rt and immediate.
pub proof fn lemma_fields_determine_word(w1: u32, w2: u32)
    ensures
        field_opcode(w1) == field_opcode(w2) && field_rs(w1) == field_rs(w2) && field_rt(w1)
            == field_rt(w2) && field_rd(w1) == field_rd(w2) && field_shamt(w1) == field_shamt(w2)
            && field_funct(w1) == field_funct(w2) ==> w1 == w2,
        field_opcode(w1) == field_opcode(w2) && field_rs(w1) == field_rs(w2) && field_rt(w1)
            == field_rt(w2) && field_imm(w1) == field_imm(w2) ==> w1 == w2,
        field_opcode(w1) == field_opcode(w2) && field_target(w1) == field_target(w2) ==> w1 == w2,
{
    reveal(field_opcode);
    reveal(field_rs);
    reveal(field_rt);
    reveal(field_rd);
    reveal(field_shamt);
    reveal(field_funct);
    reveal(field_imm);
    reveal(field_target);
    assert((w1 / 0x0400_0000 == w2 / 0x0400_0000 && (w1 / 0x0020_0000) % 32 == (w2 / 0x0020_0000)
        % 32 && (w1 / 0x0001_0000) % 32 == (w2 / 0x0001_0000) % 32 && (w1 / 0x0800) % 32 == (w2
        / 0x0800) % 32 && (w1 / 0x40) % 32 == (w2 / 0x40) % 32 && w1 % 64 == w2 % 64) ==> w1 == w2)
        by (bit_vector);
    assert((w1 / 0x0400_0000 == w2 / 0x0400_0000 && (w1 / 0x0020_0000) % 32 == (w2 / 0x0020_0000)
        % 32 && (w1 / 0x0001_0000) % 32 == (w2 / 0x0001_0000) % 32 && w1 % 0x1_0000 == w2
        % 0x1_0000) ==> w1 == w2) by (bit_vector);
    assert((w1 / 0x0400_0000 == w2 / 0x0400_0000 && w1 % 0x0400_0000 == w2 % 0x0400_0000) ==> w1
        == w2) by (bit_vector);
    let u1 = (w1 % 0x1_0000) as int;
    let u2 = (w2 % 0x1_0000) as int;
    assert(signed16(u1) == signed16(u2) ==> u1 == u2);
}

/// Decoding by the MIPS32 table: the opcode selects the instruction (0 by its funct code,
/// 2 `j`, 4 `beq`, 5 `bne`, 8 `addi`, 9 `addiu`, 0x0c `andi`, 0x0d `ori`, 0x0e `xori`), and the
/// operands are the word's register, shift, immediate and target fields.
pub proof fn lemma_decode_table(w: u32)
    ensures
        field_opcode(w) == 2 ==> decode_spec(w) == Some(
            Instruction::Jump { target: (field_target(w) * 4) as u32 },
        ),
        field_opcode(w) == 4 ==> decode_spec(w) == Some(
            Instruction::Beq { rs: field_rs(w), rt: field_rt(w), offset: field_imm(w) },
        ),
        field_opcode(w) == 5 ==> decode_spec(w) == Some(
            Instruction::Bne { rs: field_rs(w), rt: field_rt(w), offset: field_imm(w) },
        ),
        field_opcode(w) == 8 ==> decode_spec(w) == Some(
            Instruction::Addi { rt: field_rt(w), rs: field_rs(w), imm: field_imm(w) },
        ),
        field_opcode(w) == 9 ==> decode_spec(w) == Some(
            Instruction::Addiu { rt: field_rt(w), rs: field_rs(w), imm: field_imm(w) },
        ),
        field_opcode(w) == 0x0c ==> decode_spec(w) == Some(
            Instruction::Andi { rt: field_rt(w), rs: field_rs(w), imm: field_imm(w) },
        ),
        field_opcode(w) == 0x0d ==> decode_spec(w) == Some(
            Instruction::Ori { rt: field_rt(w), rs: field_rs(w), imm: field_imm(w) },
        ),
        field_opcode(w) == 0x0e ==> decode_spec(w) == Some(
            Instruction::Xori { rt: field_rt(w), rs: field_rs(w), imm: field_imm(w) },
        ),
        field_opcode(w) != 0 && field_opcode(w) != 2 && field_opcode(w) != 4 && field_opcode(w)
            != 5 && field_opcode(w) != 8 && field_opcode(w) != 9 && field_opcode(w) != 0x0c
            && field_opcode(w) != 0x0d && field_opcode(w) != 0x0e ==> decode_spec(w) is None,
        field_opcode(w) == 0 ==> ({
            let (rs, rt, rd, sh, f) = (field_rs(w), field_rt(w), field_rd(w), field_shamt(w), field_funct(w));
            &&& f == 0x20 ==> decode_spec(w) == Some(Instruction::Add { rd, rs, rt })
            &&& f == 0x21 ==> decode_spec(w) == Some(Instruction::Addu { rd, rs, rt })
            &&& f == 0x22 ==> decode_spec(w) == Some(Instruction::Sub { rd, rs, rt })
            &&& f == 0x23 ==> decode_spec(w) == Some(Instruction::Subu { rd, rs, rt })
            &&& f == 0x24 ==> decode_spec(w) == Some(Instruction::And { rd, rs, rt })
            &&& f == 0x25 ==> decode_spec(w) == Some(Instruction::Or { rd, rs, rt })
            &&& f == 0x26 ==> decode_spec(w) == Some(Instruction::Xor { rd, rs, rt })
            &&& f == 0x27 ==> decode_spec(w) == Some(Instruction::Nor { rd, rs, rt })
            &&& f == 0x00 ==> decode_spec(w) == Some(Instruction::Sll { rd, rt, shamt: sh })
            &&& f == 0x02 ==> decode_spec(w) == Some(Instruction::Srl { rd, rt, shamt: sh })
            &&& f == 0x03 ==> decode_spec(w) == Some(Instruction::Sra { rd, rt, shamt: sh })
            &&& f == 0x04 ==> decode_spec(w) == Some(Instruction::Sllv { rd, rt, rs })
            &&& f == 0x06 ==> decode_spec(w) == Some(Instruction::Srlv { rd, rt, rs })
            &&& f == 0x07 ==> decode_spec(w) == Some(Instruction::Srav { rd, rt, rs })
            &&& f == 0x18 ==> decode_spec(w) == Some(Instruction::Mult { rs, rt })
            &&& f == 0x19 ==> decode_spec(w) == Some(Instruction::Multu { rs, rt })
            &&& f == 0x1a ==> decode_spec(w) == Some(Instruction::Div { rs, rt })
            &&& f == 0x1b ==> decode_spec(w) == Some(Instruction::Divu { rs, rt })
            &&& f == 0x0c ==> decode_spec(w) == Some(Instruction::Syscall)
            &&& f != 0x20 && f != 0x21 && f != 0x22 && f != 0x23 && f != 0x24 && f != 0x25 && f
                != 0x26 && f != 0x27 && f != 0x00 && f != 0x02 && f != 0x03 && f != 0x04 && f
                != 0x06 && f != 0x07 && f != 0x18 && f != 0x19 && f != 0x1a && f != 0x1b && f
                != 0x0c ==> decode_spec(w) is None
        }),
{
}

} // verus!
