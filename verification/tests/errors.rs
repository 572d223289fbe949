use w8::error::{WVMError, WVMErrorKind};
use w8::isa::instruction::Instruction;
use w8::isa::opcode::OperationCode;
use w8::isa::operand::{Operand, OperandKind};
use w8::isa::register::Register;
use w8::loader::err::{LoaderError, LoaderErrorKind};
use w8::vm::err::{VMError, VMErrorKind};
use w8::w8::{W8, DEFAULT_MEMORY_SIZE};
use w8::vm::ExecuteVariant;

#[test]
fn machine_error_messages() {
    let cases: Vec<(VMErrorKind, &str)> = vec![
        (VMErrorKind::DivisionByZero, "division by zero"),
        (VMErrorKind::JITAllocationFailed, "JIT compiler's memory allocation failed"),
        (VMErrorKind::JITMemoryOutOfBounds, "JIT compiler's memory out of bounds"),
        (VMErrorKind::JITMemoryProtectionFailed, "failed to change JIT memory protection"),
        (VMErrorKind::IncorrectNumberOfOperands { expected: 2, got: 3 }, "expected 2 operands, but got 3 operands"),
    ];
    for (kind, text) in cases {
        assert_eq!(VMError::new(kind).to_string(), text);
    }
}

#[test]
fn report_without_colors() {
    let instruction = Instruction {
        opcode: OperationCode::MOVE,
        operand1: Some(Operand { kind: OperandKind::Immediate(0) }),
        operand2: Some(Operand { kind: OperandKind::Register(Register(0)) }),
        operand3: None,
    };
    let e = WVMError::new(
        WVMErrorKind::VMError(VMError::new(VMErrorKind::IncorrectTypeOfOperand {
            expected: OperandKind::Register(Register(0)),
            got: OperandKind::Immediate(0),
        })),
        Some(instruction),
        false,
    );
    assert_eq!(
        e.report_text(),
        "Error: expected type register, but got value type.\n\n-->  MOVE 0, R0\n     ^^^^^^^^^^\n"
    );
}

#[test]
fn report_with_colors() {
    let e = WVMError::new(WVMErrorKind::VMError(VMError::new(VMErrorKind::EmptyCallStack)), None, true);
    assert_eq!(e.report_text(), "\x1b[1;31mError\x1b[0m: \x1b[1mempty call stack\x1b[0m.\n\n");
}

#[test]
fn loader_errors_in_reports() {
    let e = WVMError::new(
        WVMErrorKind::LoaderError(LoaderError::new(LoaderErrorKind::UnknownOperandTag { byte: 3 })),
        None,
        false,
    );
    assert_eq!(e.kind.to_string(), "unknown operand tag: 3");
}

#[test]
fn w8_memory_size_and_machine() {
    assert_eq!(W8::new().memory_size, DEFAULT_MEMORY_SIZE);
    assert_eq!(W8::default().memory_size, 65536);
    let w = W8::with_memory_size(128);
    let vm = w.machine(vec![], ExecuteVariant::ByInterpreter);
    assert_eq!(vm.memory.len(), 128);
    assert_eq!(vm.exit_code, None);
}

#[test]
fn w8_loads_bytes() {
    let w = W8::new();
    let mut file = b"NVMBC".to_vec();
    file.extend_from_slice(&[0, 0, 1, 0, 0, 0, 0, 0]);
    let program = w.load_bytes(file).unwrap().unwrap();
    assert_eq!(program, vec![Instruction { opcode: OperationCode::NOP, operand1: None, operand2: None, operand3: None }]);
    let e = w.load_bytes(vec![1, 2, 3]).unwrap().unwrap_err();
    assert!(matches!(e.kind, WVMErrorKind::LoaderError(_)));
}
