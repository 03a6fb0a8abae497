//! A small MIPS toolkit: instruction encoding, an assembler front end and an emulator.

pub mod assembler;
pub mod cpu;
pub mod emulator;
pub mod instruction;
pub mod parser;
pub mod register;
pub mod text;
