use w8::isa::instruction::Instruction;
use w8::isa::opcode::OperationCode;
use w8::isa::opcode::OperationCode::{AND, CALL, FADD, FNEG, IADD, IEQ, IMUL, INE, INEG, ISUB, JMP, JNZ, JZ, LOAD16, LOAD32, LOAD64, LOAD8, LSL, LSR, MOVE, NOP, NOT, OR, RET, SAR, SDIV, SGE, SGT, SLE, SLT, SREM, STORE64, STORE8, UDIV, UGE, UGT, ULE, ULT, UREM, VMCALL, XOR};
use w8::isa::operand::{Operand, OperandKind};
use w8::isa::register::Register;
use w8::vm::err::{VMError, VMErrorKind};
use w8::vm::interpreter::{encode, Suspension};
use w8::vm::{ExecuteVariant, VMCallDecision, WVM};

fn reg(n: u8) -> Option<Operand> {
    Some(Operand { kind: OperandKind::Register(Register(n)) })
}

fn imm(v: u64) -> Option<Operand> {
    Some(Operand { kind: OperandKind::Immediate(v) })
}

fn ins(opcode: OperationCode, a: Option<Operand>, b: Option<Operand>, c: Option<Operand>) -> Instruction {
    Instruction { opcode, operand1: a, operand2: b, operand3: c }
}

fn machine(program: Vec<Instruction>) -> WVM {
    let mut vm = WVM::new(64, ExecuteVariant::ByInterpreter);
    vm.program = program;
    vm
}

fn run(program: Vec<Instruction>) -> (WVM, Result<Suspension, VMError>) {
    let mut vm = machine(program);
    let mut exec = vm.start(false).unwrap();
    let r = vm.resume(&mut exec, 10_000);
    (vm, r)
}

fn r(vm: &WVM, n: u8) -> u64 {
    vm.registers.get(Register(n))
}

#[test]
fn arithmetic() {
    let (vm, res) = run(vec![
        ins(MOVE, reg(0), imm(7), None),
        ins(IADD, reg(1), reg(0), imm(5)),
        ins(ISUB, reg(2), imm(3), reg(0)),
        ins(IMUL, reg(3), reg(0), imm(6)),
        ins(UDIV, reg(4), imm(43), reg(0)),
        ins(UREM, reg(5), imm(43), reg(0)),
        ins(SDIV, reg(6), reg(2), imm(2)),
        ins(SREM, reg(7), reg(2), imm(3)),
        ins(INEG, reg(8), reg(0), None),
        ins(NOT, reg(9), imm(0), None),
    ]);
    assert_eq!(res.unwrap(), Suspension::Finished);
    assert_eq!(r(&vm, 1), 12);
    assert_eq!(r(&vm, 2), 3u64.wrapping_sub(7));
    assert_eq!(r(&vm, 3), 42);
    assert_eq!(r(&vm, 4), 6);
    assert_eq!(r(&vm, 5), 1);
    assert_eq!(r(&vm, 6) as i64, -2);
    assert_eq!(r(&vm, 7) as i64, -1);
    assert_eq!(r(&vm, 8) as i64, -7);
    assert_eq!(r(&vm, 9), u64::MAX);
}

#[test]
fn signed_division_edge_cases() {
    let min = i64::MIN as u64;
    let (vm, res) = run(vec![
        ins(SDIV, reg(0), imm(min), imm(u64::MAX)),
        ins(SREM, reg(1), imm(min), imm(u64::MAX)),
        ins(SDIV, reg(2), imm((-7i64) as u64), imm(2)),
    ]);
    assert_eq!(res.unwrap(), Suspension::Finished);
    assert_eq!(r(&vm, 0), min);
    assert_eq!(r(&vm, 1), 0);
    assert_eq!(r(&vm, 2) as i64, -3);
}

#[test]
fn bitwise_shifts_and_comparisons() {
    let neg = (-8i64) as u64;
    let (vm, res) = run(vec![
        ins(AND, reg(0), imm(0b1100), imm(0b1010)),
        ins(OR, reg(1), imm(0b1100), imm(0b1010)),
        ins(XOR, reg(2), imm(0b1100), imm(0b1010)),
        ins(LSL, reg(3), imm(1), imm(65)),
        ins(LSR, reg(4), imm(256), imm(4)),
        ins(SAR, reg(5), imm(neg), imm(1)),
        ins(SLT, reg(6), imm(neg), imm(1)),
        ins(ULT, reg(7), imm(neg), imm(1)),
        ins(IEQ, reg(8), imm(4), imm(4)),
        ins(INE, reg(9), imm(4), imm(4)),
        ins(SGE, reg(10), imm(1), imm(neg)),
        ins(UGE, reg(11), imm(1), imm(neg)),
        ins(SLE, reg(12), imm(3), imm(3)),
        ins(SGT, reg(13), imm(3), imm(3)),
        ins(ULE, reg(14), imm(2), imm(3)),
        ins(UGT, reg(15), imm(2), imm(3)),
    ]);
    assert_eq!(res.unwrap(), Suspension::Finished);
    let expected = [0b1000, 0b1110, 0b0110, 2, 16, (-4i64) as u64, 1, 0, 1, 0, 1, 0, 1, 0, 1, 0];
    for (n, e) in expected.iter().enumerate() {
        assert_eq!(r(&vm, n as u8), *e, "register {n}");
    }
}

#[test]
fn division_by_zero_is_an_error() {
    let (vm, res) = run(vec![
        ins(OperationCode::MOVE, reg(0), imm(1), None),
        ins(OperationCode::UDIV, reg(1), imm(5), imm(0)),
    ]);
    assert!(matches!(res.unwrap_err().kind, VMErrorKind::DivisionByZero));
    assert_eq!(r(&vm, 0), 1);
}

#[test]
fn memory_instructions() {
    let (vm, res) = run(vec![
        ins(STORE64, imm(8), imm(0x0102_0304_0506_0708), None),
        ins(LOAD8, reg(0), imm(8), None),
        ins(LOAD16, reg(1), imm(8), None),
        ins(LOAD32, reg(2), imm(8), None),
        ins(MOVE, reg(9), imm(8), None),
        ins(LOAD64, reg(3), reg(9), None),
        ins(STORE8, imm(0), imm(0x1FF), None),
        ins(LOAD8, reg(4), imm(0), None),
    ]);
    assert_eq!(res.unwrap(), Suspension::Finished);
    assert_eq!(r(&vm, 0), 0x08);
    assert_eq!(r(&vm, 1), 0x0708);
    assert_eq!(r(&vm, 2), 0x0506_0708);
    assert_eq!(r(&vm, 3), 0x0102_0304_0506_0708);
    assert_eq!(r(&vm, 4), 0xFF);
}

#[test]
fn memory_access_outside_is_an_error() {
    let (_, res) = run(vec![ins(OperationCode::LOAD64, reg(0), imm(60), None)]);
    let e = res.unwrap_err();
    assert!(matches!(e.kind, VMErrorKind::InvalidAddress { got: 60, memory_length: 64 }));
    assert_eq!(e.to_string(), "memory access out of bounds: address 60 is outside memory (size: 64 bytes)");
}

#[test]
fn loop_with_conditional_jump() {
    // R0 = 5; R1 = 0; loop: R1 += R0; R0 -= 1; JNZ R0, loop
    let (vm, res) = run(vec![
        ins(MOVE, reg(0), imm(5), None),
        ins(MOVE, reg(1), imm(0), None),
        ins(IADD, reg(1), reg(1), reg(0)),
        ins(ISUB, reg(0), reg(0), imm(1)),
        ins(JNZ, reg(0), imm(2), None),
    ]);
    assert_eq!(res.unwrap(), Suspension::Finished);
    assert_eq!(r(&vm, 1), 15);
}

#[test]
fn jumps_outside_the_program_end_it() {
    let (vm, res) = run(vec![
        ins(JMP, imm(100), None, None),
        ins(MOVE, reg(0), imm(1), None),
    ]);
    assert_eq!(res.unwrap(), Suspension::Finished);
    assert_eq!(r(&vm, 0), 0);
    let (vm, res) = run(vec![
        ins(MOVE, reg(5), imm(2), None),
        ins(JZ, imm(0), reg(5), None),
        ins(MOVE, reg(0), imm(1), None),
    ]);
    assert_eq!(res.unwrap(), Suspension::Finished);
    assert_eq!(r(&vm, 0), 1);
}

#[test]
fn call_and_return() {
    let (vm, res) = run(vec![
        ins(CALL, imm(3), None, None),
        ins(MOVE, reg(1), imm(2), None),
        ins(JMP, imm(10), None, None),
        ins(MOVE, reg(0), imm(1), None),
        ins(RET, None, None, None),
    ]);
    assert_eq!(res.unwrap(), Suspension::Finished);
    assert_eq!(r(&vm, 0), 1);
    assert_eq!(r(&vm, 1), 2);
    assert!(vm.call_stack.is_empty());
}

#[test]
fn return_without_call_is_an_error() {
    let (_, res) = run(vec![ins(OperationCode::RET, None, None, None)]);
    let e = res.unwrap_err();
    assert!(matches!(e.kind, VMErrorKind::EmptyCallStack));
    assert_eq!(e.to_string(), "empty call stack");
}

#[test]
fn steps_run_out_and_resume() {
    let mut vm = machine(vec![
        ins(MOVE, reg(0), imm(1), None),
        ins(MOVE, reg(1), imm(2), None),
        ins(MOVE, reg(2), imm(3), None),
    ]);
    let mut exec = vm.start(false).unwrap();
    assert_eq!(vm.resume(&mut exec, 2).unwrap(), Suspension::OutOfSteps);
    assert_eq!(exec.position(), 2);
    assert_eq!(r(&vm, 1), 2);
    assert_eq!(r(&vm, 2), 0);
    assert_eq!(vm.resume(&mut exec, 2).unwrap(), Suspension::Finished);
    assert_eq!(r(&vm, 2), 3);
}

#[test]
fn vmcall_without_host_is_an_error() {
    let (_, res) = run(vec![ins(OperationCode::VMCALL, imm(7), imm(0), imm(8))]);
    let e = res.unwrap_err();
    assert!(matches!(e.kind, VMErrorKind::UnknownVMCallService { service: 7 }));
    assert_eq!(e.to_string(), "unknown syscall service: 7");
}

#[test]
fn vmcall_block_outside_memory_is_an_error() {
    let mut vm = machine(vec![ins(OperationCode::VMCALL, imm(1), imm(60), imm(8))]);
    let mut exec = vm.start(true).unwrap();
    let e = vm.resume(&mut exec, 10).unwrap_err();
    assert!(matches!(e.kind, VMErrorKind::InvalidAddress { got: 60, memory_length: 64 }));
}

#[test]
fn vmcall_with_host_continue_and_exit() {
    let mut vm = machine(vec![
        ins(VMCALL, imm(1), imm(0), imm(4)),
        ins(MOVE, reg(0), imm(9), None),
        ins(VMCALL, imm(2), reg(0), imm(0)),
        ins(MOVE, reg(1), imm(9), None),
    ]);
    let mut exec = vm.start(true).unwrap();
    assert_eq!(vm.resume(&mut exec, 100).unwrap(), Suspension::Host { service: 1, address: 0, size: 4 });
    vm.finish_host_call(&mut exec, VMCallDecision::Continue);
    assert_eq!(vm.resume(&mut exec, 100).unwrap(), Suspension::Host { service: 2, address: 9, size: 0 });
    vm.finish_host_call(&mut exec, VMCallDecision::Exit { code: 42 });
    assert_eq!(vm.exit_code, Some(42));
    assert_eq!(vm.resume(&mut exec, 100).unwrap(), Suspension::Finished);
    assert_eq!(r(&vm, 0), 9);
    assert_eq!(r(&vm, 1), 0);
}

#[test]
fn floating_point_is_handed_to_the_caller() {
    let mut vm = machine(vec![
        ins(MOVE, reg(0), imm(1.5f64.to_bits()), None),
        ins(FADD, reg(1), reg(0), imm(2.0f64.to_bits())),
        ins(FNEG, reg(2), reg(1), None),
    ]);
    let mut exec = vm.start(false).unwrap();
    match vm.resume(&mut exec, 100).unwrap() {
        Suspension::Float { op, dst, lhs, rhs } => {
            assert_eq!(op, FADD);
            assert_eq!(dst, Register(1));
            let sum = f64::from_bits(lhs) + f64::from_bits(rhs);
            assert_eq!(sum, 3.5);
            vm.registers.set(dst, sum.to_bits());
        }
        other => panic!("unexpected {other:?}"),
    }
    assert_eq!(exec.position(), 2);
    match vm.resume(&mut exec, 100).unwrap() {
        Suspension::Float { op, lhs, rhs, .. } => {
            assert_eq!(op, FNEG);
            assert_eq!(f64::from_bits(lhs), 3.5);
            assert_eq!(rhs, 0);
        }
        other => panic!("unexpected {other:?}"),
    }
}

#[test]
fn the_encoding_checks_operands() {
    let e = encode(&[ins(MOVE, reg(0), None, None)]).unwrap_err();
    assert!(matches!(e.kind, VMErrorKind::IncorrectNumberOfOperands { expected: 2, got: 1 }));
    let e = encode(&[ins(IADD, imm(0), imm(1), imm(2))]).unwrap_err();
    assert!(matches!(e.kind, VMErrorKind::IncorrectTypeOfOperand { .. }));
    let e = encode(&[ins(NOP, None, None, None), ins(JMP, reg(255), None, None)]).unwrap_err();
    assert!(matches!(e.kind, VMErrorKind::InvalidRegister { got: 255 }));
    assert_eq!(e.to_string(), "invalid register number 255: the register number must be in the range 0-254");
    let code = encode(&[ins(IADD, reg(3), imm(4), reg(5))]).unwrap();
    assert_eq!(code, vec![10 * 8 + 0b101, 3, 4, 5]);
}

#[test]
fn start_reports_the_first_bad_instruction() {
    let mut vm = machine(vec![ins(NOP, None, None, None), ins(RET, imm(1), None, None)]);
    vm.exit_code = Some(3);
    let e = vm.start(false).err().unwrap();
    assert!(matches!(e.kind, VMErrorKind::IncorrectNumberOfOperands { expected: 0, got: 1 }));
    assert_eq!(vm.exit_code, None);
}

#[test]
fn encode_counts_operands_wherever_they_stand() {
    // Two operands, the first a register: accepted, and the missing second
    // operand reads as 0.
    assert!(encode(&[ins(MOVE, reg(0), None, imm(5))]).is_ok());
    let (vm, res) = run(vec![ins(MOVE, reg(0), imm(9), None), ins(MOVE, reg(0), None, imm(5))]);
    assert_eq!(res.unwrap(), Suspension::Finished);
    assert_eq!(r(&vm, 0), 0);
    // Accepted too, but no handler takes its operand kinds: running it
    // stops there.
    assert!(encode(&[ins(JZ, None, imm(1), reg(0))]).is_ok());
    let (_, res) = run(vec![ins(JZ, None, imm(1), reg(0))]);
    assert_eq!(res.unwrap(), Suspension::InvalidSignature);
    let e = encode(&[ins(JZ, reg(0), None, None)]).unwrap_err();
    assert!(matches!(e.kind, VMErrorKind::IncorrectNumberOfOperands { expected: 2, got: 1 }));
}
