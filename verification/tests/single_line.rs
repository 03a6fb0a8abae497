use mimu::assembler::Image;
use mimu::cpu;
use mimu::emulator::RunState;
use mimu::instruction::{encode, Instruction};
use mimu::parser::{parse_line, ParseError};
use mimu::register::{self, T0, T1, T2, V0};

#[test]
fn parses_load_immediate() {
    assert_eq!(parse_line("li $t0, 42"), Ok(Instruction::LoadImmediate { rd: T0, imm: 42 }),);
}

#[test]
fn single_line_parser_forms() {
    // addi names the source register first here
    assert_eq!(parse_line("addi $t0, $t1, -3"), Ok(Instruction::Addi { rs: T0, rt: T1, imm: -3 }));
    assert_eq!(parse_line("li $t0, 100000"), Ok(Instruction::LoadImmediate { rd: T0, imm: 100000 }));
    assert_eq!(parse_line("syscall"), Ok(Instruction::Syscall));
    assert_eq!(parse_line("syscall $t0"), Err(ParseError::InvalidArgument));
    assert_eq!(parse_line("li $t0"), Err(ParseError::InvalidArgument));
    assert_eq!(parse_line("sub $t0, $t1, $t2"), Err(ParseError::UnknownInstruction));
}

#[test]
fn test_load_immediate() {
    let mut emu = cpu::Emulator::new();
    let _ = emu.execute(Instruction::LoadImmediate { rd: T0, imm: 42 }); // li $t0, 42
    assert_eq!(emu.register(T0), 42);
}

#[test]
fn cpu_test_add() {
    let mut emu = cpu::Emulator::new();
    let _ = emu.execute(Instruction::LoadImmediate { rd: T0, imm: 10 }); // li $t0, 10
    let _ = emu.execute(Instruction::LoadImmediate { rd: T1, imm: 20 }); // li $t1, 20
    let _ = emu.execute(Instruction::Add { rd: T2, rs: T0, rt: T1 }); // add $t2, $t0, $t1
    assert_eq!(emu.register(T2), 30);
}

#[test]
fn minimal_emulator_runs_from_address_zero() {
    let mut img = Image::new();
    img.text.push(encode(&Instruction::Addi { rt: T0, rs: register::ZERO, imm: -2 }));
    img.text.push(encode(&Instruction::Addi { rt: V0, rs: register::ZERO, imm: 10 }));
    img.text.push(encode(&Instruction::Syscall));
    let mut emu = cpu::Emulator::new();
    emu.load(&img);
    assert_eq!(emu.cpu().pc, 0);
    assert_eq!(emu.memory().read_word(4), img.text[1]);
    assert_eq!(emu.step(), Ok(RunState::Running));
    assert_eq!(emu.step(), Ok(RunState::Running));
    assert_eq!(emu.step(), Ok(RunState::Halted));
    assert_eq!(emu.register(T0), 0xFFFF_FFFE);
    assert_eq!(emu.cpu().pc, 12);
    let _ = emu.execute(Instruction::LoadImmediate { rd: register::ZERO, imm: 5 });
    assert_eq!(emu.register(register::ZERO), 0);
}
