//! SPECIAL funct field (bits 5..0), valid when opcode == SPECIAL.
use vstd::prelude::*;

verus! {

pub const SLL: u32 = 0x00;
pub const SRL: u32 = 0x02;
pub const SRA: u32 = 0x03;
pub const SLLV: u32 = 0x04;
pub const SRLV: u32 = 0x06;
pub const SRAV: u32 = 0x07;
pub const JR: u32 = 0x08;
pub const JALR: u32 = 0x09;
pub const SYSCALL: u32 = 0x0c;
pub const MULT: u32 = 0x18;
pub const MULTU: u32 = 0x19;
pub const DIV: u32 = 0x1a;
pub const DIVU: u32 = 0x1b;
pub const ADD: u32 = 0x20;
pub const ADDU: u32 = 0x21;
pub const SUB: u32 = 0x22;
pub const SUBU: u32 = 0x23;
pub const AND: u32 = 0x24;
pub const OR: u32 = 0x25;
pub const XOR: u32 = 0x26;
pub const NOR: u32 = 0x27;
pub const SLT: u32 = 0x2a;
pub const SLTU: u32 = 0x2b;

} // verus!
