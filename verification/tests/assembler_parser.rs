use std::collections::HashMap;

use mimu::assembler::parser::{parse_line, resolve, Cond, ParseError, Parsed};
use mimu::instruction::Instruction;
use mimu::parser;
use mimu::register::{self, T0, T1, T2};

#[test]
fn malformed_lines_are_rejected() {
    let cases = [
        ("foo $t0, $t1, $t2", ParseError::UnknownInstruction),
        ("add t0, $t1, $t2", ParseError::InvalidArgument), // missing $
        ("add $t0, $t1", ParseError::InvalidArgument),     // too few args
        ("add $t0, $t1, $t2, $t3", ParseError::InvalidArgument), // too many
        ("addi $t0, $40, 1", ParseError::InvalidArgument), // reg out of range
        ("li $nope, 1", ParseError::InvalidArgument),      // bad reg name
        ("li $t0, banana", ParseError::InvalidArgument),   // non-numeric imm
        ("syscall $t0", ParseError::InvalidArgument),      // args on syscall
    ];
    for (src, expected) in cases {
        assert_eq!(parse_line(src), Err(expected), "input: {src:?}");
    }
}

// --- arithmetic ---

#[test]
fn parser_parses_add() {
    assert_eq!(
        parse_line("add $t0, $t1, $t2"),
        Ok(Parsed::Ready(Instruction::Add { rd: T0, rs: T1, rt: T2 })),
    );
    assert_eq!(
        parser::parse_line("add $t0, $t1, $t2"),
        Ok(Instruction::Add { rd: T0, rs: T1, rt: T2 }),
    );
}

#[test]
fn parses_addu() {
    assert_eq!(
        parse_line("addu $t0, $t1, $t2"),
        Ok(Parsed::Ready(Instruction::Addu { rd: T0, rs: T1, rt: T2 })),
    );
}

#[test]
fn parses_addi() {
    assert_eq!(
        parse_line("addi $t0, $t1, 42"),
        Ok(Parsed::Ready(Instruction::Addi { rt: T0, rs: T1, imm: 42 })),
    );
}

#[test]
fn parses_addiu() {
    assert_eq!(
        parse_line("addiu $t0, $t1, -1"),
        Ok(Parsed::Ready(Instruction::Addiu { rt: T0, rs: T1, imm: -1 })),
    );
}

#[test]
fn parses_sub() {
    assert_eq!(
        parse_line("sub $t0, $t1, $t2"),
        Ok(Parsed::Ready(Instruction::Sub { rd: T0, rs: T1, rt: T2 })),
    );
}

#[test]
fn parses_subu() {
    assert_eq!(
        parse_line("subu $t0, $t1, $t2"),
        Ok(Parsed::Ready(Instruction::Subu { rd: T0, rs: T1, rt: T2 })),
    );
}

#[test]
fn parses_div() {
    assert_eq!(
        parse_line("div $t0, $t1"),
        Ok(Parsed::Ready(Instruction::Div { rs: T0, rt: T1 })),
    );
}

#[test]
fn parses_divu() {
    assert_eq!(
        parse_line("divu $t0, $t1"),
        Ok(Parsed::Ready(Instruction::Divu { rs: T0, rt: T1 })),
    );
}

// --- logical ---

#[test]
fn parses_and() {
    assert_eq!(
        parse_line("and $t0, $t1, $t2"),
        Ok(Parsed::Ready(Instruction::And { rd: T0, rs: T1, rt: T2 })),
    );
}

#[test]
fn parses_andi() {
    assert_eq!(
        parse_line("andi $t0, $t1, 255"),
        Ok(Parsed::Ready(Instruction::Andi { rt: T0, rs: T1, imm: 0xFF })),
    );
}

#[test]
fn parses_or() {
    assert_eq!(
        parse_line("or $t0, $t1, $t2"),
        Ok(Parsed::Ready(Instruction::Or { rd: T0, rs: T1, rt: T2 })),
    );
}

#[test]
fn parses_ori() {
    assert_eq!(
        parse_line("ori $t0, $t1, 7"),
        Ok(Parsed::Ready(Instruction::Ori { rt: T0, rs: T1, imm: 7 })),
    );
}

#[test]
fn parses_nor() {
    assert_eq!(
        parse_line("nor $t0, $t1, $t2"),
        Ok(Parsed::Ready(Instruction::Nor { rd: T0, rs: T1, rt: T2 })),
    );
}

#[test]
fn parses_xor() {
    assert_eq!(
        parse_line("xor $t0, $t1, $t2"),
        Ok(Parsed::Ready(Instruction::Xor { rd: T0, rs: T1, rt: T2 })),
    );
}

#[test]
fn parses_xori() {
    assert_eq!(
        parse_line("xori $t0, $t1, 3"),
        Ok(Parsed::Ready(Instruction::Xori { rt: T0, rs: T1, imm: 3 })),
    );
}

// --- shifts ---

#[test]
fn parses_sll() {
    assert_eq!(
        parse_line("sll $t0, $t1, 2"),
        Ok(Parsed::Ready(Instruction::Sll { rd: T0, rt: T1, shamt: 2 })),
    );
}

#[test]
fn parses_sllv() {
    assert_eq!(
        parse_line("sllv $t0, $t1, $t2"),
        Ok(Parsed::Ready(Instruction::Sllv { rd: T0, rt: T1, rs: T2 })),
    );
}

#[test]
fn parses_srl() {
    assert_eq!(
        parse_line("srl $t0, $t1, 1"),
        Ok(Parsed::Ready(Instruction::Srl { rd: T0, rt: T1, shamt: 1 })),
    );
}

#[test]
fn parses_srlv() {
    assert_eq!(
        parse_line("srlv $t0, $t1, $t2"),
        Ok(Parsed::Ready(Instruction::Srlv { rd: T0, rt: T1, rs: T2 })),
    );
}

#[test]
fn parses_sra() {
    assert_eq!(
        parse_line("sra $t0, $t1, 3"),
        Ok(Parsed::Ready(Instruction::Sra { rd: T0, rt: T1, shamt: 3 })),
    );
}

#[test]
fn parses_srav() {
    assert_eq!(
        parse_line("srav $t0, $t1, $t2"),
        Ok(Parsed::Ready(Instruction::Srav { rd: T0, rt: T1, rs: T2 })),
    );
}

// --- pseudo ---

#[test]
fn parses_li() {
    assert_eq!(
        parse_line("li $t0, 5"),
        Ok(Parsed::Ready(Instruction::Addi { rt: T0, rs: register::ZERO, imm: 5 })),
    );
}

#[test]
fn parses_syscall() {
    assert_eq!(parse_line("syscall"), Ok(Parsed::Ready(Instruction::Syscall)));
}

// --- control flow ---

#[test]
fn parses_beq() {
    assert_eq!(
        parse_line("beq $t0, $t1, loop"),
        Ok(Parsed::Branch { kind: Cond::Eq, rs: T0, rt: T1, label: "loop".into() }),
    );
}

#[test]
fn parses_bne() {
    assert_eq!(
        parse_line("bne $t0, $t1, loop"),
        Ok(Parsed::Branch { kind: Cond::Ne, rs: T0, rt: T1, label: "loop".into() }),
    );
}

#[test]
fn parses_j() {
    assert_eq!(parse_line("j exit"), Ok(Parsed::Jump { label: "exit".into() }));
}

// --- operand syntax ---

#[test]
fn registers_by_number_and_alias() {
    assert_eq!(
        parse_line("add $8, $+9, $s8"),
        Ok(Parsed::Ready(Instruction::Add { rd: 8, rs: 9, rt: 30 })),
    );
    assert_eq!(
        parse_line("add $31, $0, $zero"),
        Ok(Parsed::Ready(Instruction::Add { rd: 31, rs: 0, rt: 0 })),
    );
    assert_eq!(parse_line("add $32, $0, $0"), Err(ParseError::InvalidArgument));
    assert_eq!(parse_line("add $-1, $0, $0"), Err(ParseError::InvalidArgument));
    assert_eq!(parse_line("add $+, $0, $0"), Err(ParseError::InvalidArgument));
    assert_eq!(
        parse_line("add $99999999999999999999999, $0, $0"),
        Err(ParseError::InvalidArgument)
    );
}

#[test]
fn whitespace_and_blank_operands() {
    assert_eq!(
        parse_line("  \tadd\t $t0 ,,$t1,  $t2 ,  "),
        Ok(Parsed::Ready(Instruction::Add { rd: T0, rs: T1, rt: T2 })),
    );
    assert_eq!(parse_line(""), Err(ParseError::UnknownInstruction));
    assert_eq!(parse_line("ADD $t0, $t1, $t2"), Err(ParseError::UnknownInstruction));
    assert_eq!(parse_line("syscall   "), Ok(Parsed::Ready(Instruction::Syscall)));
}

#[test]
fn immediates_wrap_to_sixteen_bits() {
    assert_eq!(
        parse_line("addi $t0, $t1, 65535"),
        Ok(Parsed::Ready(Instruction::Addi { rt: T0, rs: T1, imm: -1 })),
    );
    assert_eq!(
        parse_line("li $t0, 70000"),
        Ok(Parsed::Ready(Instruction::Addi { rt: T0, rs: 0, imm: 4464 })),
    );
    assert_eq!(
        parse_line("addi $t0, $t1, -2147483648"),
        Ok(Parsed::Ready(Instruction::Addi { rt: T0, rs: T1, imm: 0 })),
    );
    assert_eq!(parse_line("addi $t0, $t1, 2147483648"), Err(ParseError::InvalidArgument));
    assert_eq!(parse_line("addi $t0, $t1, +7"), Ok(Parsed::Ready(Instruction::Addi { rt: T0, rs: T1, imm: 7 })));
    assert_eq!(parse_line("addi $t0, $t1, -"), Err(ParseError::InvalidArgument));
    assert_eq!(
        parse_line("sll $t0, $t1, -1"),
        Ok(Parsed::Ready(Instruction::Sll { rd: T0, rt: T1, shamt: u32::MAX })),
    );
}

#[test]
fn control_flow_operand_counts() {
    assert_eq!(parse_line("j"), Err(ParseError::InvalidArgument));
    assert_eq!(parse_line("j a, b"), Err(ParseError::InvalidArgument));
    assert_eq!(parse_line("beq $t0, loop"), Err(ParseError::InvalidArgument));
    assert_eq!(parse_line("bne $t0, $x, loop"), Err(ParseError::InvalidArgument));
    assert_eq!(parse_line("li $t0"), Err(ParseError::InvalidArgument));
}

// --- resolving labels ---

fn labels() -> HashMap<String, u32> {
    let mut m = HashMap::new();
    m.insert("loop".to_string(), 0x0040_0000);
    m.insert("exit".to_string(), 0x0040_0020);
    m.insert("far".to_string(), 0x0050_0000);
    m
}

#[test]
fn resolve_ready_passes_through() {
    let inst = Instruction::Add { rd: 1, rs: 2, rt: 3 };
    assert_eq!(resolve(Parsed::Ready(Instruction::Add { rd: 1, rs: 2, rt: 3 }), 0, &labels()), Ok(inst));
}

#[test]
fn resolve_branch_offsets() {
    // backwards: from 0x400010 to 0x400000 is (0x400000 - 0x400014) / 4 = -5
    let p = Parsed::Branch { kind: Cond::Ne, rs: 8, rt: 9, label: "loop".to_string() };
    assert_eq!(resolve(p, 0x0040_0010, &labels()), Ok(Instruction::Bne { rs: 8, rt: 9, offset: -5 }));
    // forwards: from 0x400000 to 0x400020 is (0x400020 - 0x400004) / 4 = 7
    let p = Parsed::Branch { kind: Cond::Eq, rs: 1, rt: 2, label: "exit".to_string() };
    assert_eq!(resolve(p, 0x0040_0000, &labels()), Ok(Instruction::Beq { rs: 1, rt: 2, offset: 7 }));
    // not word aligned: rounds down
    let p = Parsed::Branch { kind: Cond::Eq, rs: 1, rt: 2, label: "loop".to_string() };
    assert_eq!(resolve(p, 0x003F_FFFE, &labels()), Ok(Instruction::Beq { rs: 1, rt: 2, offset: -1 }));
}

#[test]
fn resolve_jump_and_undefined_labels() {
    assert_eq!(
        resolve(Parsed::Jump { label: "exit".to_string() }, 0, &labels()),
        Ok(Instruction::Jump { target: 0x0040_0020 })
    );
    assert_eq!(
        resolve(Parsed::Jump { label: "nowhere".to_string() }, 0, &labels()),
        Err(ParseError::UndefinedLabel { label: "nowhere".to_string() })
    );
    assert_eq!(
        resolve(
            Parsed::Branch { kind: Cond::Eq, rs: 0, rt: 0, label: "Loop".to_string() },
            0,
            &labels()
        ),
        Err(ParseError::UndefinedLabel { label: "Loop".to_string() })
    );
}

#[test]
fn resolve_branch_out_of_range() {
    let p = Parsed::Branch { kind: Cond::Eq, rs: 0, rt: 0, label: "far".to_string() };
    // (0x500000 - 0x400004) / 4 = 0x3ffff, which does not fit 16 bits
    assert_eq!(
        resolve(p, 0x0040_0000, &labels()),
        Err(ParseError::BranchOutOfRange { here: 0x0040_0000, target: 0x0050_0000, delta: 0x3ffff })
    );
    let p = Parsed::Branch { kind: Cond::Ne, rs: 0, rt: 0, label: "loop".to_string() };
    assert_eq!(
        resolve(p, 0x0050_0000, &labels()),
        Err(ParseError::BranchOutOfRange { here: 0x0050_0000, target: 0x0040_0000, delta: -0x40001 })
    );
}
