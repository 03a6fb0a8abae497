use mimu::assembler::Image;
use mimu::emulator::cpu::Cpu;
use mimu::emulator::memory::Memory;
use mimu::emulator::{Emulator, RunState, DATA_START, TEXT_START};
use mimu::instruction::{encode, Instruction};
use mimu::register::{self, NAMES, T0, T1, T2, V0};

// --- cpu ---

#[test]
fn new_zeroes_all_registers_and_pc() {
    let cpu = Cpu::new();
    assert_eq!(cpu.pc, 0);
    for i in 0..32 {
        assert_eq!(cpu.read_register(i), 0);
    }
}

#[test]
fn write_then_read_register() {
    let mut cpu = Cpu::new();
    cpu.write_register(register::T0, 42);
    assert_eq!(cpu.read_register(register::T0), 42);
}

#[test]
fn write_to_zero_register_is_ignored() {
    let mut cpu = Cpu::new();
    cpu.write_register(register::ZERO, 0xDEAD_BEEF);
    assert_eq!(cpu.read_register(register::ZERO), 0);
}

#[test]
fn cpu_write_max_u32() {
    let mut cpu = Cpu::new();
    cpu.write_register(register::S0, u32::MAX);
    assert_eq!(cpu.read_register(register::S0), u32::MAX);
}

#[test]
fn write_does_not_affect_other_registers() {
    let mut cpu = Cpu::new();
    cpu.write_register(register::T1, 99);
    for i in 1..32 {
        if i != register::T1 {
            assert_eq!(cpu.read_register(i), 0, "register {i} unexpectedly modified");
        }
    }
}

#[test]
fn overwrite_register() {
    let mut cpu = Cpu::new();
    cpu.write_register(register::V0, 1);
    cpu.write_register(register::V0, 2);
    assert_eq!(cpu.read_register(register::V0), 2);
}

#[test]
fn pc_is_mutable() {
    let mut cpu = Cpu::new();
    cpu.pc = 0x0040_0000;
    assert_eq!(cpu.pc, 0x0040_0000);
    assert_eq!(cpu.get_pc(), 0x0040_0000);
    cpu.set_pc(8);
    assert_eq!(cpu.pc, 8);
}

#[test]
fn display_contains_register_names() {
    let cpu = Cpu::new();
    let output = cpu.to_string();
    assert!(output.contains("zero"));
    assert!(output.contains("ra"));
    assert!(output.contains("CPU State:"));
}

fn listing(values: &[u32; 32]) -> String {
    let mut expected = String::from("CPU State:\n");
    for (i, val) in values.iter().enumerate() {
        expected += &format!("${:<4}: {:>11}", NAMES[i], val);
        if i % 4 == 3 {
            expected.push('\n');
        } else {
            expected += "    ";
        }
    }
    expected
}

#[test]
fn listing_matches_display_format() {
    let mut cpu = Cpu::new();
    assert_eq!(cpu.to_string(), listing(&[0; 32]));
    let mut values = [0u32; 32];
    for i in 1..32 {
        let v = (i as u32).wrapping_mul(0x9E37_79B9);
        cpu.write_register(i, v);
        values[i] = v;
    }
    cpu.write_register(31, u32::MAX);
    values[31] = u32::MAX;
    cpu.write_register(5, 10);
    values[5] = 10;
    assert_eq!(cpu.to_string(), listing(&values));
    assert!(cpu.to_string().starts_with("CPU State:\n$zero:           0    $at  : "));
}

// --- memory ---

#[test]
fn unwritten_address_reads_zero() {
    let mem = Memory::new();
    assert_eq!(mem.read_word(0x0000_0000), 0);
    assert_eq!(mem.read_word(0xFFFF_FFFC), 0);
}

#[test]
fn write_then_read_word() {
    let mut mem = Memory::new();
    mem.write_word(0x100, 0xDEAD_BEEF);
    assert_eq!(mem.read_word(0x100), 0xDEAD_BEEF);
}

#[test]
fn memory_write_max_u32() {
    let mut mem = Memory::new();
    mem.write_word(0x200, u32::MAX);
    assert_eq!(mem.read_word(0x200), u32::MAX);
}

#[test]
fn little_endian_byte_layout() {
    let mut mem = Memory::new();
    mem.write_word(0x0, 0x0102_0304);
    // byte 0 (lowest addr) holds the least-significant byte
    assert_eq!(mem.read_byte(0x0), 0x04);
    assert_eq!(mem.read_byte(0x1), 0x03);
    assert_eq!(mem.read_byte(0x2), 0x02);
    assert_eq!(mem.read_byte(0x3), 0x01);
}

#[test]
fn overwrite_word() {
    let mut mem = Memory::new();
    mem.write_word(0x0, 0xAAAA_AAAA);
    mem.write_word(0x0, 0x1234_5678);
    assert_eq!(mem.read_word(0x0), 0x1234_5678);
}

#[test]
fn write_does_not_affect_adjacent_words() {
    let mut mem = Memory::new();
    mem.write_word(0x100, 0xCAFE_BABE);
    assert_eq!(mem.read_word(0x0FC), 0);
    assert_eq!(mem.read_word(0x104), 0);
}

#[test]
fn multiple_independent_addresses() {
    let mut mem = Memory::new();
    mem.write_word(0x000, 1);
    mem.write_word(0x100, 2);
    mem.write_word(0x200, 3);
    assert_eq!(mem.read_word(0x000), 1);
    assert_eq!(mem.read_word(0x100), 2);
    assert_eq!(mem.read_word(0x200), 3);
}

#[test]
fn write_zero_clears_word() {
    let mut mem = Memory::new();
    mem.write_word(0x0, 0xFFFF_FFFF);
    mem.write_word(0x0, 0x0000_0000);
    assert_eq!(mem.read_word(0x0), 0);
}

#[test]
fn unaligned_words_overlap() {
    let mut mem = Memory::new();
    mem.write_word(0x10, 0x1122_3344);
    mem.write_byte(0x14, 0x55);
    assert_eq!(mem.read_word(0x11), 0x5511_2233);
    mem.write_word(0xFFFF_FFFC, 0xA0B0_C0D0);
    assert_eq!(mem.read_byte(0xFFFF_FFFF), 0xA0);
}

// --- emulator ---

#[test]
fn emulator_test_add() {
    let mut emu = Emulator::new();
    let _ = emu.execute(Instruction::Addi { rt: T0, rs: register::ZERO, imm: 10 });
    let _ = emu.execute(Instruction::Addi { rt: T1, rs: register::ZERO, imm: 20 });
    let _ = emu.execute(Instruction::Add { rd: T2, rs: T0, rt: T1 }); // add $t2, $t0, $t1
    assert_eq!(emu.register(T2), 30);
}

#[test]
fn arithmetic_wraps() {
    let mut emu = Emulator::new();
    assert_eq!(emu.execute(Instruction::Addi { rt: T0, rs: register::ZERO, imm: -1 }), Ok(RunState::Running));
    assert_eq!(emu.register(T0), 0xFFFF_FFFF);
    let _ = emu.execute(Instruction::Addi { rt: T1, rs: T0, imm: 2 });
    assert_eq!(emu.register(T1), 1);
    let _ = emu.execute(Instruction::Add { rd: T2, rs: T0, rt: T0 });
    assert_eq!(emu.register(T2), 0xFFFF_FFFE);
    let _ = emu.execute(Instruction::Add { rd: register::ZERO, rs: T0, rt: T0 });
    assert_eq!(emu.register(register::ZERO), 0);
}

#[test]
fn exit_syscall_halts() {
    let mut emu = Emulator::new();
    assert!(!emu.can_execute(&Instruction::Syscall));
    let _ = emu.execute(Instruction::Addi { rt: V0, rs: register::ZERO, imm: 10 });
    assert!(emu.can_execute(&Instruction::Syscall));
    assert_eq!(emu.execute(Instruction::Syscall), Ok(RunState::Halted));
    assert!(!emu.can_execute(&Instruction::Sub { rd: 1, rs: 2, rt: 3 }));
    assert!(!emu.can_execute(&Instruction::Add { rd: 32, rs: 2, rt: 3 }));
}

#[test]
fn load_places_text_data_and_entry() {
    let mut img = Image::new();
    img.text.push(0x1122_3344);
    img.text.push(0x5566_7788);
    img.data.push(0xAB);
    img.data.push(0xCD);
    let mut emu = Emulator::new();
    emu.load(&img);
    assert_eq!(emu.memory().read_word(TEXT_START), 0x1122_3344);
    assert_eq!(emu.memory().read_word(TEXT_START + 4), 0x5566_7788);
    assert_eq!(emu.memory().read_word(TEXT_START + 8), 0);
    assert_eq!(emu.memory().read_byte(DATA_START), 0xAB);
    assert_eq!(emu.memory().read_byte(DATA_START + 1), 0);
    assert_eq!(emu.memory().read_byte(DATA_START + 4), 0xCD);
    assert_eq!(emu.cpu().pc, TEXT_START + TEXT_START);
}

#[test]
fn run_a_program() {
    let mut img = Image::new();
    img.entry = 0;
    img.text.push(encode(&Instruction::Addi { rt: T0, rs: register::ZERO, imm: 7 }));
    img.text.push(encode(&Instruction::Add { rd: T1, rs: T0, rt: T0 }));
    img.text.push(encode(&Instruction::Addi { rt: V0, rs: register::ZERO, imm: 10 }));
    img.text.push(encode(&Instruction::Syscall));
    let mut emu = Emulator::new();
    emu.load(&img);
    assert_eq!(emu.cpu().pc, TEXT_START);
    let mut steps = 0;
    loop {
        steps += 1;
        match emu.step() {
            Ok(RunState::Running) => {},
            Ok(RunState::Halted) => break,
            Err(e) => panic!("{e:?}"),
        }
    }
    assert_eq!(steps, 4);
    assert_eq!(emu.register(T1), 14);
    assert_eq!(emu.cpu().pc, TEXT_START + 16);
}

#[test]
fn default_is_fresh() {
    let mut emu = Emulator::default();
    assert_eq!(emu.register(T0), 0);
    assert_eq!(emu.cpu().pc, 0);
}
