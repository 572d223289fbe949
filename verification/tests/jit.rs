use w8::isa::instruction::Instruction;
use w8::isa::opcode::OperationCode;
use w8::isa::operand::{Operand, OperandKind};
use w8::isa::register::Register;
use w8::vm::err::VMErrorKind;
use w8::vm::jit::codegen::{CallingConvention, GenContext, JITCodegen, VmcallOut};
use w8::vm::jit::memory::MemoryProtection;
use w8::vm::jit::{pop_return, push_return, status_outcome, vmcall_precheck};
use w8::vm::{ExecuteVariant, VMCallDecision, WVM};

const REGISTERS: u64 = 0x1000;

fn reg(n: u8) -> Option<Operand> {
    Some(Operand { kind: OperandKind::Register(Register(n)) })
}

fn imm(v: u64) -> Option<Operand> {
    Some(Operand { kind: OperandKind::Immediate(v) })
}

fn ins(opcode: OperationCode, a: Option<Operand>, b: Option<Operand>, c: Option<Operand>) -> Instruction {
    Instruction { opcode, operand1: a, operand2: b, operand3: c }
}

fn context(convention: CallingConvention) -> GenContext {
    GenContext {
        code_base: 0x10000,
        wvm: 0x3000,
        out: 0x4000,
        membase_addr: 0x5000,
        scratch_addr: 0x6000,
        call_push: 0x7000,
        call_pop: 0x8000,
        vmcall: 0x9000,
        convention,
        sdiv: 0xA000,
        udiv: 0xB000,
        srem: 0xC000,
        urem: 0xD000,
    }
}

fn le(v: u64) -> Vec<u8> {
    v.to_le_bytes().to_vec()
}

fn generate(program: &[Instruction]) -> (Vec<u8>, bool) {
    let mut cg = JITCodegen::new(REGISTERS, 0x2000, 0x3000);
    let ctx = context(CallingConvention::SystemV);
    assert!(cg.can_generate(program, &ctx));
    let g = cg.generate(program, &ctx).unwrap();
    (g.bytes, g.has_status)
}

#[test]
fn register_cells_are_8_bytes_apart() {
    let cg = JITCodegen::new(REGISTERS, 0x2000, 0x3000);
    assert_eq!(cg.register(0), REGISTERS);
    assert_eq!(cg.register(254), REGISTERS + 8 * 254);
    assert_eq!(cg.w8_address(), 0x3000);
    assert_eq!(cg.call_stack_address(), 0x2000);
}

#[test]
fn nop_program() {
    let (bytes, status) = generate(&[ins(OperationCode::NOP, None, None, None)]);
    assert_eq!(bytes, vec![0x90, 0xC3]);
    assert!(!status);
}

#[test]
fn move_immediate_and_register() {
    let (bytes, _) = generate(&[
        ins(OperationCode::MOVE, reg(1), imm(42), None),
        ins(OperationCode::MOVE, reg(2), reg(1), None),
    ]);
    let mut expected = vec![0x48, 0xB8];
    expected.extend(le(42));
    expected.extend([0x48, 0xA3]);
    expected.extend(le(REGISTERS + 8));
    expected.extend([0x48, 0xA1]);
    expected.extend(le(REGISTERS + 8));
    expected.extend([0x48, 0xA3]);
    expected.extend(le(REGISTERS + 16));
    expected.push(0xC3);
    assert_eq!(bytes, expected);
}

#[test]
fn integer_addition() {
    let (bytes, _) = generate(&[ins(OperationCode::IADD, reg(0), reg(1), imm(5))]);
    let mut expected = vec![0x48, 0xA1];
    expected.extend(le(REGISTERS + 8));
    expected.extend([0x48, 0xB9]);
    expected.extend(le(5));
    expected.extend([0x48, 0x01, 0xC8]);
    expected.extend([0x48, 0xA3]);
    expected.extend(le(REGISTERS));
    expected.push(0xC3);
    assert_eq!(bytes, expected);
}

#[test]
fn direct_jumps_resolve_to_instruction_starts() {
    let (bytes, _) = generate(&[
        ins(OperationCode::NOP, None, None, None),
        ins(OperationCode::JMP, imm(0), None, None),
    ]);
    // The jump at offset 1 lands on offset 0: displacement 0 - (2 + 4).
    assert_eq!(bytes, vec![0x90, 0xE9, 0xFA, 0xFF, 0xFF, 0xFF, 0xC3]);
    let (bytes, _) = generate(&[ins(OperationCode::JMP, imm(9), None, None)]);
    // Out of the program: the epilogue right after it.
    assert_eq!(bytes, vec![0xE9, 0, 0, 0, 0, 0xC3]);
}

#[test]
fn return_has_error_stub_and_address_table() {
    let (bytes, status) = generate(&[ins(OperationCode::RET, None, None, None)]);
    assert!(status);
    assert_eq!(bytes.len(), 120);
    assert_eq!(&bytes[0..4], &[0x48, 0x83, 0xEC, 0x08]);
    // The error stub at 93, then the epilogue at 110, one `nop` of padding
    // and the table at 112.
    assert_eq!(&bytes[93..96], &[0x48, 0xC7, 0xC0]);
    assert_eq!(&bytes[96..100], &[1, 0, 0, 0]);
    assert_eq!(&bytes[100..102], &[0x48, 0xA3]);
    assert_eq!(&bytes[102..110], &le(0x4000)[..]);
    assert_eq!(bytes[110], 0xC3);
    assert_eq!(bytes[111], 0x90);
    assert_eq!(&bytes[112..120], &le(0x10000)[..]);
    // `jz <error stub>` at 42: displacement 93 - 48.
    assert_eq!(&bytes[42..48], &[0x0F, 0x84, 45, 0, 0, 0]);
}

#[test]
fn a_program_with_ret_closes_its_end() {
    let (bytes, _) = generate(&[
        ins(OperationCode::RET, None, None, None),
        ins(OperationCode::NOP, None, None, None),
    ]);
    // NOP at 93, the closing jump at 94 to the epilogue at 99 + 17 = 116.
    assert_eq!(bytes[93], 0x90);
    assert_eq!(&bytes[94..99], &[0xE9, 17, 0, 0, 0]);
    assert_eq!(bytes[116], 0xC3);
}

#[test]
fn windows_calls_reserve_shadow_space() {
    let mut cg = JITCodegen::new(REGISTERS, 0x2000, 0x3000);
    let ctx = context(CallingConvention::Windows);
    let g = cg.generate(&[ins(OperationCode::CALL, imm(0), None, None)], &ctx).unwrap();
    assert_eq!(&g.bytes[0..4], &[0x48, 0x83, 0xEC, 0x28]);
    assert_eq!(&g.bytes[4..6], &[0x48, 0xB9]);
    assert_eq!(&g.bytes[6..14], &le(0x2000)[..]);
    assert_eq!(&g.bytes[16..24], &le(1)[..]);
}

#[test]
fn lowering_errors_are_reported() {
    let mut cg = JITCodegen::new(REGISTERS, 0x2000, 0x3000);
    let ctx = context(CallingConvention::SystemV);
    let program = [ins(OperationCode::NOP, None, None, None), ins(OperationCode::IADD, imm(1), imm(2), imm(3))];
    assert!(cg.can_generate(&program, &ctx));
    let e = cg.generate(&program, &ctx).err().unwrap();
    assert!(matches!(e.kind, VMErrorKind::IncorrectTypeOfOperand { .. }));
    let program = [ins(OperationCode::RET, imm(1), None, None)];
    let e = cg.generate(&program, &ctx).err().unwrap();
    assert!(matches!(e.kind, VMErrorKind::IncorrectNumberOfOperands { expected: 0, got: 1 }));
}

#[test]
fn register_255_is_an_invalid_register() {
    let mut cg = JITCodegen::new(REGISTERS, 0x2000, 0x3000);
    let ctx = context(CallingConvention::SystemV);
    let program = [ins(OperationCode::MOVE, reg(255), imm(1), None)];
    assert!(cg.can_generate(&program, &ctx));
    let e = cg.generate(&program, &ctx).err().unwrap();
    assert!(matches!(e.kind, VMErrorKind::InvalidRegister { got: 255 }));
    let program = [ins(OperationCode::IADD, reg(0), reg(1), reg(255))];
    let e = cg.generate(&program, &ctx).err().unwrap();
    assert!(matches!(e.kind, VMErrorKind::InvalidRegister { got: 255 }));
    // An earlier error comes first.
    let program =
        [ins(OperationCode::MOVE, imm(0), imm(1), None), ins(OperationCode::MOVE, reg(255), imm(1), None)];
    let e = cg.generate(&program, &ctx).err().unwrap();
    assert!(matches!(e.kind, VMErrorKind::IncorrectTypeOfOperand { .. }));
}

#[test]
fn an_operand_after_a_gap_cannot_be_generated() {
    let cg = JITCodegen::new(REGISTERS, 0x2000, 0x3000);
    let ctx = context(CallingConvention::SystemV);
    assert!(!cg.can_generate(&[ins(OperationCode::JZ, None, imm(1), imm(2))], &ctx));
}

#[test]
fn status_cell_outcomes() {
    let mut out = VmcallOut::new();
    assert!(status_outcome(false, &out).is_ok());
    assert!(status_outcome(true, &out).is_ok());
    out.status = VmcallOut::EMPTY_CALL_STACK;
    assert!(matches!(status_outcome(true, &out).unwrap_err().kind, VMErrorKind::EmptyCallStack));
    out.status = VmcallOut::UNKNOWN_SERVICE;
    out.info0 = 9;
    assert!(matches!(status_outcome(true, &out).unwrap_err().kind, VMErrorKind::UnknownVMCallService { service: 9 }));
    out.status = VmcallOut::INVALID_ADDRESS;
    out.info1 = 64;
    assert!(matches!(
        status_outcome(true, &out).unwrap_err().kind,
        VMErrorKind::InvalidAddress { got: 9, memory_length: 64 }
    ));
    out.status = VmcallOut::VMCALL_EXIT;
    assert!(status_outcome(true, &out).is_ok());
}

#[test]
fn trampoline_decisions() {
    let mut stack = vec![];
    let mut scratch = 7usize;
    assert_eq!(pop_return(&mut stack, &mut scratch), 0);
    assert_eq!(scratch, 7);
    push_return(&mut stack, 4);
    assert_eq!(pop_return(&mut stack, &mut scratch), 1);
    assert_eq!(scratch, 4);

    let mut out = VmcallOut::new();
    assert_eq!(vmcall_precheck(&mut out, 1, 60, 8, 64, true), VmcallOut::INVALID_ADDRESS);
    assert_eq!((out.status, out.info0, out.info1), (VmcallOut::INVALID_ADDRESS, 60, 64));
    let mut out = VmcallOut::new();
    assert_eq!(vmcall_precheck(&mut out, 5, 0, 8, 64, false), VmcallOut::UNKNOWN_SERVICE);
    assert_eq!((out.status, out.info0), (VmcallOut::UNKNOWN_SERVICE, 5));
    let mut out = VmcallOut::new();
    assert_eq!(vmcall_precheck(&mut out, 5, 0, 8, 64, true), VmcallOut::OK);
    assert_eq!(out, VmcallOut::new());

    let mut vm = WVM::new(8, ExecuteVariant::ByJIT);
    assert_eq!(vm.conclude_vmcall(&mut out, VMCallDecision::Continue, 0x99), VmcallOut::OK);
    assert_eq!(out.membase, 0x99);
    assert_eq!(vm.exit_code, None);
    assert_eq!(vm.conclude_vmcall(&mut out, VMCallDecision::Exit { code: 3 }, 0x99), VmcallOut::VMCALL_EXIT);
    assert_eq!(vm.exit_code, Some(3));
    assert_eq!(out.status, VmcallOut::VMCALL_EXIT);
}

#[test]
fn memory_protection_text() {
    let rx = MemoryProtection::read().union(MemoryProtection::execute());
    assert_eq!(rx.to_string(), "R-X");
    assert!(rx.contains(MemoryProtection::read()));
    assert!(!rx.contains(MemoryProtection::write()));
    let e = VMErrorKind::CantWriteCodeInTheCurrentPage(rx);
    assert_eq!(
        e.to_string(),
        "It is not possible to write code on the current page because the current protection is R-X"
    );
}

#[test]
fn status_of_a_zero_divisor_is_division_by_zero() {
    let mut out = VmcallOut::new();
    out.status = VmcallOut::DIVISION_BY_ZERO;
    assert!(matches!(status_outcome(true, &out).unwrap_err().kind, VMErrorKind::DivisionByZero));
}
