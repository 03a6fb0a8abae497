use mimu::assembler::parser::ParseError;
use mimu::assembler::{assemble_source, Image, DATA_START, TEXT_START};
use mimu::emulator::{Emulator, RunState};
use mimu::instruction::{decode, Instruction};

#[test]
fn assemble_rejects_file_with_bad_line() {
    let src = "li $t0, 1\nadd $t0, $t1\nsyscall\n"; // line 2 is malformed
    assert!(assemble_source(src).is_err());
}

#[test]
fn assemble_reports_each_bad_line() {
    let src = "li $t0, 1\nadd $t0, $t1\n  # comment\nfoo\n\nj end\nsyscall\n";
    let errors = assemble_source(src).err().unwrap();
    assert_eq!(errors.len(), 3);
    assert_eq!(errors[0].line_num, 2);
    assert_eq!(errors[0].line, "add $t0, $t1");
    assert_eq!(errors[0].error, ParseError::InvalidArgument);
    assert_eq!(errors[1].line_num, 4);
    assert_eq!(errors[1].error, ParseError::UnknownInstruction);
    assert_eq!(errors[2].line_num, 6);
    assert_eq!(errors[2].line, "j end");
    assert_eq!(errors[2].error, ParseError::UndefinedLabel { label: "end".to_string() });
}

#[test]
fn assemble_encodes_lines_in_order() {
    let src = "# sum\r\n  li $t0, 10\r\nli $t1, 20\n\n add $t2, $t0, $t1\nli $v0, 10\nsyscall";
    let img: Image = assemble_source(src).ok().unwrap();
    assert_eq!(img.text.len(), 5);
    assert_eq!(decode(img.text[0]), Instruction::Addi { rt: 8, rs: 0, imm: 10 });
    assert_eq!(decode(img.text[2]), Instruction::Add { rd: 10, rs: 8, rt: 9 });
    assert_eq!(img.text[4], 0x0000_000C);
    assert!(img.data.is_empty());
    assert_eq!(img.text_start, TEXT_START);
    assert_eq!(img.data_start, DATA_START);
    assert_eq!(img.entry, TEXT_START);
}

#[test]
fn assemble_empty_source() {
    let img = assemble_source("").ok().unwrap();
    assert!(img.text.is_empty());
    let img = assemble_source("\n\n   \n# only comments\n").ok().unwrap();
    assert!(img.text.is_empty());
}

#[test]
fn image_new_defaults() {
    let img = Image::new();
    assert!(img.text.is_empty() && img.data.is_empty());
    assert_eq!((img.text_start, img.data_start, img.entry), (0x0040_0000, 0x1000_0000, 0x0040_0000));
}

#[test]
fn assembled_words_reencode_exactly() {
    let src = "sll $t0, $t1, 35\nsrl $1, $2, -1\nadd $t0, $t1, $t2\naddi $t0, $t1, 70000\nli $v0, 10\nsyscall";
    let img = assemble_source(src).ok().unwrap();
    assert_eq!(img.text.len(), 6);
    for w in &img.text {
        assert_eq!(mimu::instruction::encode(&decode(*w)), *w);
    }
    // the shift amount is cut to five bits by the encoding
    assert_eq!(decode(img.text[0]), Instruction::Sll { rd: 8, rt: 9, shamt: 3 });
}

#[test]
fn li_then_run_loads_the_value() {
    let mut img = assemble_source("li $t0, -5\nli $t1, 300\nli $v0, 10\nsyscall\n").ok().unwrap();
    img.entry = 0;
    let mut emu = Emulator::new();
    emu.load(&img);
    while emu.step() == Ok(RunState::Running) {}
    assert_eq!(emu.register(8), 0xFFFF_FFFB);
    assert_eq!(emu.register(9), 300);
    assert_eq!(emu.cpu().pc, TEXT_START + 16);
}
