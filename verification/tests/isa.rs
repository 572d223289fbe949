use w8::isa::err::ISAErrorKind;
use w8::isa::instruction::Instruction;
use w8::isa::opcode::OperationCode;
use w8::isa::operand::{Operand, OperandKind};
use w8::isa::register::Register;
use w8::vm::err::VMErrorKind;

fn reg(n: u8) -> Option<Operand> {
    Some(Operand { kind: OperandKind::Register(Register(n)) })
}

fn imm(v: u64) -> Option<Operand> {
    Some(Operand { kind: OperandKind::Immediate(v) })
}

#[test]
fn every_opcode_round_trips_through_its_byte() {
    for b in 0u8..=52 {
        let op = OperationCode::from_byte(b).unwrap();
        assert_eq!(op.byte(), b);
        assert_eq!(OperationCode::try_from(b).unwrap(), op);
    }
    assert_eq!(OperationCode::from_byte(53), None);
    assert_eq!(OperationCode::from_byte(255), None);
}

#[test]
fn opcode_bytes_follow_the_list() {
    assert_eq!(OperationCode::NOP.byte(), 0);
    assert_eq!(OperationCode::MOVE.byte(), 1);
    assert_eq!(OperationCode::IADD.byte(), 10);
    assert_eq!(OperationCode::JMP.byte(), 47);
    assert_eq!(OperationCode::VMCALL.byte(), 52);
}

#[test]
fn unknown_opcode_byte_is_an_error() {
    let e = OperationCode::try_from(53).unwrap_err();
    match &e.kind {
        ISAErrorKind::UnknownOperationCode(t) => assert_eq!(t, "53"),
        _ => panic!("wrong error"),
    }
    assert_eq!(e.message(), "unknown operation code: 53");
}

#[test]
fn mnemonics_parse_back_ignoring_case() {
    for b in 0u8..=52 {
        let op = OperationCode::from_byte(b).unwrap();
        assert_eq!(OperationCode::parse(op.mnemonic()).unwrap(), op);
        assert_eq!(OperationCode::parse(op.name()).unwrap(), op);
    }
    assert_eq!(OperationCode::parse("vMcAlL").unwrap(), OperationCode::VMCALL);
    let e = OperationCode::parse("jump").unwrap_err();
    assert_eq!(e.message(), "unknown operation code: jump");
    assert_eq!("IADD".parse::<OperationCode>().unwrap(), OperationCode::IADD);
}

#[test]
fn registers_are_0_to_254() {
    assert_eq!(Register::new(0), Some(Register(0)));
    assert_eq!(Register::new(254), Some(Register(254)));
    assert_eq!(Register::new(255), None);
    assert_eq!(Register(17).to_string(), "R17");
}

#[test]
fn operand_count_and_expectations() {
    let i = Instruction { opcode: OperationCode::MOVE, operand1: reg(1), operand2: imm(5), operand3: None };
    assert_eq!(i.operand_count(), 2);
    let (a, b) = i.expect2().unwrap();
    assert_eq!(a.expect_register().unwrap(), Register(1));
    assert_eq!(b.expect_immediate().unwrap(), 5);
    let e = i.expect3().unwrap_err();
    assert!(matches!(e.kind, VMErrorKind::IncorrectNumberOfOperands { expected: 3, got: 2 }));
    let e = i.expect1().unwrap_err();
    assert_eq!(e.to_string(), "expected 1 operands, but got 2 operands");
    let e = b.expect_register().unwrap_err();
    assert_eq!(e.to_string(), "expected type register, but got value type");
    let e = a.expect_immediate().unwrap_err();
    assert_eq!(e.to_string(), "expected type value, but got register type");
}

#[test]
fn instruction_text() {
    let i = Instruction { opcode: OperationCode::IADD, operand1: reg(0), operand2: reg(1), operand3: imm(42) };
    assert_eq!(i.to_string(), "IADD R0, R1, 42");
    let j = Instruction { opcode: OperationCode::JMP, operand1: imm(3), operand2: None, operand3: None };
    assert_eq!(j.to_string(), "JMP 3");
    let n = Instruction { opcode: OperationCode::NOP, operand1: None, operand2: None, operand3: None };
    assert_eq!(n.to_string(), "NOP");
    assert_eq!(OperandKind::Immediate(18446744073709551615).to_string(), "18446744073709551615");
}

#[test]
fn decode_instructions() {
    let i = Instruction::try_from(vec![1, 2, 0, 3, 1, 42, 0, 0, 0, 0, 0, 0, 0]).unwrap();
    assert_eq!(i, Instruction { opcode: OperationCode::MOVE, operand1: reg(3), operand2: imm(42), operand3: None });
    let r = Instruction::try_from(vec![51, 0]).unwrap();
    assert_eq!(r, Instruction { opcode: OperationCode::RET, operand1: None, operand2: None, operand3: None });
}

#[test]
fn decode_errors() {
    let e = Instruction::try_from(vec![1]).unwrap_err();
    assert_eq!(e.message(), "unexpected end of data: expected 2 bytes, but found 1");
    let e = Instruction::try_from(vec![60, 0]).unwrap_err();
    assert_eq!(e.message(), "unknown operation code: 60");
    let e = Instruction::try_from(vec![0, 4]).unwrap_err();
    assert_eq!(e.message(), "invalid operand count: 4");
    let e = Instruction::try_from(vec![1, 1, 0, 255]).unwrap_err();
    assert_eq!(e.message(), "invalid register number 255: the register number must be in the range 0-254");
    let e = Instruction::try_from(vec![1, 1, 7, 0]).unwrap_err();
    assert_eq!(e.message(), "unknown operand tag: 7");
    let e = Instruction::try_from(vec![1, 1, 1, 0, 0]).unwrap_err();
    assert!(matches!(e.kind, ISAErrorKind::UnexpectedEndOfData { .. }));
}
