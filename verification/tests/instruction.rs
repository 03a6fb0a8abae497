use mimu::instruction::{
    decode, encode, funct, i_type, imm, opcode, r_type, rd, regimm, rs, rt, shamt, target,
    try_decode, Instruction,
};

fn round_trip(inst: Instruction) {
    let word = encode(&inst);
    assert_eq!(decode(word), inst);
}

// --- field accessors ---

#[test]
fn opcode_extracts_top_6_bits() {
    assert_eq!(opcode(0x0800_0000), 0x02);
    assert_eq!(opcode(0x2000_0000), 0x08);
    assert_eq!(opcode(0x0000_0000), 0x00);
    assert_eq!(opcode(0xFC00_0000), 0x3F);
}

#[test]
fn rs_rt_rd_extract_correct_fields() {
    let word: u32 = (8 << 21) | (9 << 16) | (10 << 11);
    assert_eq!(rs(word), 8);
    assert_eq!(rt(word), 9);
    assert_eq!(rd(word), 10);
}

#[test]
fn funct_extracts_low_6_bits() {
    assert_eq!(funct(0x0000_0020), 0x20);
    assert_eq!(funct(0xFFFF_FFC0), 0x00);
}

#[test]
fn imm_sign_extends() {
    assert_eq!(imm(0x0000_8000), -32768i16);
    assert_eq!(imm(0x0000_7FFF), 0x7FFF);
}

#[test]
fn shamt_extracts_bits_10_to_6() {
    assert_eq!(shamt(0b11111 << 6), 0x1f);
    assert_eq!(shamt(0), 0);
}

#[test]
fn target_extracts_26_bits() {
    assert_eq!(target(0x03FF_FFFF), 0x03FF_FFFF);
    assert_eq!(target(0xFC00_0000), 0);
}

// --- encode helpers ---

#[test]
fn r_type_packs_fields() {
    let word = r_type(0x20, 8, 9, 10, 0);
    assert_eq!(rs(word), 8);
    assert_eq!(rt(word), 9);
    assert_eq!(rd(word), 10);
    assert_eq!(funct(word), 0x20);
    assert_eq!(opcode(word), 0x00);
}

#[test]
fn i_type_packs_fields() {
    let word = i_type(0x08, 4, 5, -1i16);
    assert_eq!(opcode(word), 0x08);
    assert_eq!(rs(word), 4);
    assert_eq!(rt(word), 5);
    assert_eq!(imm(word), -1i16);
}

#[test]
fn r_type_masks_overflow() {
    let word = r_type(0x20, 0x3F, 0x3F, 0x3F, 0x3F);
    assert_eq!(rs(word), 0x1F);
    assert_eq!(rt(word), 0x1F);
    assert_eq!(rd(word), 0x1F);
}

// --- R-type arithmetic ---

#[test]
fn encode_decode_add() {
    round_trip(Instruction::Add { rd: 10, rs: 12, rt: 14 });
}
#[test]
fn encode_decode_addu() {
    round_trip(Instruction::Addu { rd: 1, rs: 2, rt: 3 });
}
#[test]
fn encode_decode_sub() {
    round_trip(Instruction::Sub { rd: 4, rs: 5, rt: 6 });
}
#[test]
fn encode_decode_subu() {
    round_trip(Instruction::Subu { rd: 7, rs: 8, rt: 9 });
}

// --- R-type logical ---

#[test]
fn encode_decode_and() {
    round_trip(Instruction::And { rd: 1, rs: 2, rt: 3 });
}
#[test]
fn encode_decode_or() {
    round_trip(Instruction::Or { rd: 4, rs: 5, rt: 6 });
}
#[test]
fn encode_decode_xor() {
    round_trip(Instruction::Xor { rd: 7, rs: 8, rt: 9 });
}
#[test]
fn encode_decode_nor() {
    round_trip(Instruction::Nor { rd: 10, rs: 11, rt: 12 });
}

// --- R-type multiply / divide ---

#[test]
fn encode_decode_mult() {
    round_trip(Instruction::Mult { rs: 4, rt: 5 });
}
#[test]
fn encode_decode_multu() {
    round_trip(Instruction::Multu { rs: 6, rt: 7 });
}
#[test]
fn encode_decode_div() {
    round_trip(Instruction::Div { rs: 8, rt: 9 });
}
#[test]
fn encode_decode_divu() {
    round_trip(Instruction::Divu { rs: 10, rt: 11 });
}

// --- shifts ---

#[test]
fn encode_decode_sll() {
    round_trip(Instruction::Sll { rd: 1, rt: 2, shamt: 4 });
}
#[test]
fn encode_decode_srl() {
    round_trip(Instruction::Srl { rd: 3, rt: 4, shamt: 8 });
}
#[test]
fn encode_decode_sra() {
    round_trip(Instruction::Sra { rd: 5, rt: 6, shamt: 16 });
}
#[test]
fn encode_decode_sllv() {
    round_trip(Instruction::Sllv { rd: 1, rt: 2, rs: 3 });
}
#[test]
fn encode_decode_srlv() {
    round_trip(Instruction::Srlv { rd: 4, rt: 5, rs: 6 });
}
#[test]
fn encode_decode_srav() {
    round_trip(Instruction::Srav { rd: 7, rt: 8, rs: 9 });
}

// --- I-type arithmetic ---

#[test]
fn encode_decode_addi() {
    round_trip(Instruction::Addi { rt: 3, rs: 5, imm: -100 });
}
#[test]
fn encode_decode_addiu() {
    round_trip(Instruction::Addiu { rt: 4, rs: 6, imm: 200 });
}

// --- I-type logical ---

#[test]
fn encode_decode_andi() {
    round_trip(Instruction::Andi { rt: 1, rs: 2, imm: 0x00FF });
}
#[test]
fn encode_decode_ori() {
    round_trip(Instruction::Ori { rt: 3, rs: 4, imm: 0x0F0F });
}
#[test]
fn encode_decode_xori() {
    round_trip(Instruction::Xori { rt: 5, rs: 6, imm: 0x1234 });
}

// --- branch ---

#[test]
fn encode_decode_beq() {
    round_trip(Instruction::Beq { rs: 1, rt: 2, offset: 16 });
}
#[test]
fn encode_decode_bne() {
    round_trip(Instruction::Bne { rs: 3, rt: 4, offset: -8 });
}

// --- jump ---

#[test]
fn encode_decode_jump() {
    // target must fit in 28 bits (top 4 bits are lost without a PC)
    round_trip(Instruction::Jump { target: 0x0000_4000 });
}

// --- syscall ---

#[test]
fn encode_decode_syscall() {
    round_trip(Instruction::Syscall);
}

// --- exact words ---

#[test]
fn encode_gives_known_words() {
    // add $t2, $t0, $t1
    assert_eq!(encode(&Instruction::Add { rd: 10, rs: 8, rt: 9 }), 0x0109_5020);
    // addi $t0, $zero, -1
    assert_eq!(encode(&Instruction::Addi { rt: 8, rs: 0, imm: -1 }), 0x2008_FFFF);
    // j 0x4000
    assert_eq!(encode(&Instruction::Jump { target: 0x0000_4000 }), 0x0800_1000);
    assert_eq!(encode(&Instruction::Syscall), 0x0000_000C);
    // sll $t0, $t1, 4
    assert_eq!(encode(&Instruction::Sll { rd: 8, rt: 9, shamt: 4 }), 0x0009_4100);
}

#[test]
fn encode_masks_out_of_range_fields() {
    // register numbers and shift amounts are cut to five bits
    assert_eq!(
        encode(&Instruction::Add { rd: 42, rs: 40, rt: 33 }),
        encode(&Instruction::Add { rd: 10, rs: 8, rt: 1 })
    );
    assert_eq!(
        encode(&Instruction::Srl { rd: 1, rt: 2, shamt: 35 }),
        encode(&Instruction::Srl { rd: 1, rt: 2, shamt: 3 })
    );
}

#[test]
fn decode_known_words() {
    assert_eq!(decode(0x0109_5020), Instruction::Add { rd: 10, rs: 8, rt: 9 });
    assert_eq!(decode(0x2008_FFFF), Instruction::Addi { rt: 8, rs: 0, imm: -1 });
    assert_eq!(decode(0x0000_000C), Instruction::Syscall);
    assert_eq!(decode(0x0800_1000), Instruction::Jump { target: 0x4000 });
    assert_eq!(decode(0x0000_0000), Instruction::Sll { rd: 0, rt: 0, shamt: 0 });
}

#[test]
fn decode_then_encode_clears_ignored_fields() {
    // add with a nonzero shamt field decodes to add, and re-encodes with shamt 0
    let word = 0x0109_5020 | (3 << 6);
    let inst = decode(word);
    assert_eq!(inst, Instruction::Add { rd: 10, rs: 8, rt: 9 });
    assert_eq!(encode(&inst), 0x0109_5020);
    assert_eq!(decode(encode(&inst)), inst);
}

#[test]
fn itype_and_jtype_words_reencode_exactly() {
    for word in [0x2008_FFFFu32, 0x3423_1234, 0x1085_FFF8, 0x0BFF_FFFF, 0x3800_0001] {
        assert_eq!(encode(&decode(word)), word);
    }
}

#[test]
fn try_decode_rejects_unhandled_words() {
    assert_eq!(try_decode(0x0109_5020), Some(Instruction::Add { rd: 10, rs: 8, rt: 9 }));
    // REGIMM, SPECIAL2, jal, lw and an R-type with funct jr are not handled
    assert_eq!(try_decode(0x0400_0000), None);
    assert_eq!(try_decode(0x7000_0000), None);
    assert_eq!(try_decode(0x0C00_0000), None);
    assert_eq!(try_decode(0x8C00_0000), None);
    assert_eq!(try_decode(0x0000_0008), None);
}

#[test]
fn regimm_packs_fields() {
    let word = regimm(9, 0x11, -2);
    assert_eq!(opcode(word), 0x01);
    assert_eq!(rs(word), 9);
    assert_eq!(rt(word), 0x11);
    assert_eq!(imm(word), -2);
}
