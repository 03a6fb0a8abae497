//! Opcode field (bits 31..26).
use vstd::prelude::*;

verus! {

/// R-type; dispatch on funct.
pub const SPECIAL: u32 = 0x00;
/// Dispatch on rt.
pub const REGIMM: u32 = 0x01;
/// Dispatch on funct.
pub const SPECIAL2: u32 = 0x1c;
pub const J: u32 = 0x02;
pub const JAL: u32 = 0x03;
pub const BEQ: u32 = 0x04;
pub const BNE: u32 = 0x05;
pub const ADDI: u32 = 0x08;
pub const ADDIU: u32 = 0x09;
pub const SLTI: u32 = 0x0a;
pub const SLTIU: u32 = 0x0b;
pub const ANDI: u32 = 0x0c;
pub const ORI: u32 = 0x0d;
pub const XORI: u32 = 0x0e;
pub const LUI: u32 = 0x0f;
pub const LW: u32 = 0x23;
pub const SW: u32 = 0x2b;

} // verus!
