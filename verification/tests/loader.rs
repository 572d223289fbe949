use w8::isa::instruction::Instruction;
use w8::isa::opcode::OperationCode;
use w8::isa::operand::{Operand, OperandKind};
use w8::isa::register::Register;
use w8::loader::err::LoaderErrorKind;
use w8::loader::version::version_parts;
use w8::loader::W8Loader;
use w8::W8_VERSION;

fn header() -> Vec<u8> {
    let mut v = b"NVMBC".to_vec();
    let [major, minor, patch] = version_parts(W8_VERSION);
    for part in [major, minor, patch] {
        v.extend_from_slice(&part.to_le_bytes());
    }
    v
}

fn reg(n: u8) -> Option<Operand> {
    Some(Operand { kind: OperandKind::Register(Register(n)) })
}

fn imm(v: u64) -> Option<Operand> {
    Some(Operand { kind: OperandKind::Immediate(v) })
}

#[test]
fn version_of_this_library() {
    assert_eq!(W8_VERSION, "0.1.0");
    assert_eq!(version_parts(W8_VERSION), [0, 1, 0]);
}

#[test]
fn version_parts_truncate_and_default() {
    assert_eq!(version_parts("1.2.3"), [1, 2, 3]);
    assert_eq!(version_parts("10.20"), [10, 20, 0]);
    assert_eq!(version_parts("1.2.3-beta"), [1, 2, 3]);
    assert_eq!(version_parts("x.2"), [0, 2, 0]);
    assert_eq!(version_parts(""), [0, 0, 0]);
}

#[test]
fn loads_a_program() {
    let mut file = header();
    file.extend_from_slice(&[1, 2, 0, 0, 1, 7, 0, 0, 0, 0, 0, 0, 0]);
    file.extend_from_slice(&[51, 0]);
    let program = W8Loader::new(file).transpile().unwrap();
    assert_eq!(
        program,
        vec![
            Instruction { opcode: OperationCode::MOVE, operand1: reg(0), operand2: imm(7), operand3: None },
            Instruction { opcode: OperationCode::RET, operand1: None, operand2: None, operand3: None },
        ]
    );
}

#[test]
fn an_empty_program_loads() {
    assert_eq!(W8Loader::new(header()).transpile().unwrap(), vec![]);
}

#[test]
fn short_file_is_rejected() {
    let e = W8Loader::new(b"NVMBC".to_vec()).transpile().unwrap_err();
    assert_eq!(e.to_string(), "the file is not in W8 Bytecode format: the file must be at least 11 bytes in size");
}

#[test]
fn bad_magic_is_rejected() {
    let mut file = header();
    file[0] = b'X';
    let e = W8Loader::new(file).transpile().unwrap_err();
    assert_eq!(e.to_string(), "the file is not in W8 Bytecode format: incorrect magic section");
}

#[test]
fn other_version_is_rejected() {
    let mut file = header();
    file[5] = 9;
    let e = W8Loader::new(file).transpile().unwrap_err();
    assert_eq!(
        e.to_string(),
        "the file was compiled with W8 version 9.1.0, but the current VM version is 0.1.0"
    );
}

#[test]
fn truncated_instruction_is_rejected() {
    let mut file = header();
    file.push(0);
    let e = W8Loader::new(file).transpile().unwrap_err();
    assert!(matches!(e.kind, LoaderErrorKind::UnexpectedEndOfFile { needed: 2, remaining: 1 }));
    assert_eq!(e.to_string(), "unexpected end of file: needed 2 more bytes, but only 1 remain");

    let mut file = header();
    file.extend_from_slice(&[1, 1, 1, 0, 0]);
    let e = W8Loader::new(file).transpile().unwrap_err();
    assert!(matches!(e.kind, LoaderErrorKind::UnexpectedEndOfFile { needed: 11, remaining: 5 }));
}

#[test]
fn unknown_opcode_and_tag_are_rejected() {
    let mut file = header();
    file.extend_from_slice(&[53, 0]);
    let e = W8Loader::new(file).transpile().unwrap_err();
    assert!(matches!(e.kind, LoaderErrorKind::UnknownOpcode { byte: 53 }));
    assert_eq!(e.to_string(), "unknown opcode byte: 53");

    let mut file = header();
    file.extend_from_slice(&[0, 4]);
    let e = W8Loader::new(file).transpile().unwrap_err();
    assert!(matches!(e.kind, LoaderErrorKind::UnknownOpcode { byte: 0 }));

    let mut file = header();
    file.extend_from_slice(&[1, 1, 5, 0]);
    let e = W8Loader::new(file).transpile().unwrap_err();
    assert!(matches!(e.kind, LoaderErrorKind::UnknownOperandTag { byte: 5 }));
    assert_eq!(e.to_string(), "unknown operand tag: 5");
}

#[test]
fn malformed_instruction_is_rejected_with_its_offset() {
    let mut file = header();
    file.extend_from_slice(&[0, 0, 1, 1, 0, 255]);
    let e = W8Loader::new(file).transpile().unwrap_err();
    assert_eq!(
        e.to_string(),
        "the file is not in W8 Bytecode format: failed to parse instruction at offset 13: invalid register number 255: the register number must be in the range 0-254"
    );
}

#[test]
fn operands_past_the_end_have_no_remaining_size() {
    let mut file = header();
    file.extend_from_slice(&[1, 2, 1, 0]);
    assert!(W8Loader::new(file).transpile_checked().is_none());
    let mut file = header();
    file.extend_from_slice(&[1, 2, 0]);
    assert!(W8Loader::new(file).transpile_checked().is_none());
    let mut file = header();
    file.extend_from_slice(&[1, 2, 0, 5]);
    let e = W8Loader::new(file).transpile_checked().unwrap().unwrap_err();
    assert!(matches!(e.kind, LoaderErrorKind::UnexpectedEndOfFile { needed: 1, remaining: 0 }));
}
