use w8::isa::instruction::Instruction;
use w8::isa::opcode::OperationCode;
use w8::isa::operand::{Operand, OperandKind};
use w8::isa::register::Register;
use w8::vm::err::VMErrorKind;
use w8::vm::jit::codegen::{CallingConvention, GenContext, JITCodegen, VmcallOut};
use w8::vm::jit::{jit_sdiv64, jit_srem64, jit_udiv64, jit_urem64};

const REGISTERS: u64 = 0x1000;
const PROLOGUE: [u8; 6] = [0x53, 0x56, 0x57, 0x83, 0xEC, 0x10];
const EPILOGUE: [u8; 7] = [0x83, 0xC4, 0x10, 0x5F, 0x5E, 0x5B, 0xC3];

fn reg(n: u8) -> Option<Operand> {
    Some(Operand { kind: OperandKind::Register(Register(n)) })
}

fn imm(v: u64) -> Option<Operand> {
    Some(Operand { kind: OperandKind::Immediate(v) })
}

fn ins(opcode: OperationCode, a: Option<Operand>, b: Option<Operand>, c: Option<Operand>) -> Instruction {
    Instruction { opcode, operand1: a, operand2: b, operand3: c }
}

fn context() -> GenContext {
    GenContext {
        code_base: 0x10000,
        wvm: 0x3000,
        out: 0x4000,
        membase_addr: 0x5000,
        scratch_addr: 0x6000,
        call_push: 0x7000,
        call_pop: 0x8000,
        vmcall: 0x9000,
        convention: CallingConvention::SystemV,
        sdiv: 0xA000,
        udiv: 0xB000,
        srem: 0xC000,
        urem: 0xD000,
    }
}

fn le(v: u32) -> Vec<u8> {
    v.to_le_bytes().to_vec()
}

fn generate(program: &[Instruction]) -> (Vec<u8>, bool) {
    let mut cg = JITCodegen::new(REGISTERS, 0x2000, 0x3000);
    let ctx = context();
    assert!(cg.can_generate_x86(program, &ctx));
    let g = cg.generate_x86(program, &ctx).unwrap();
    (g.bytes, g.has_status)
}

fn framed(body: &[u8]) -> Vec<u8> {
    let mut v = PROLOGUE.to_vec();
    v.extend_from_slice(body);
    v.extend_from_slice(&EPILOGUE);
    v
}

#[test]
fn x86_nop_is_framed_by_prologue_and_epilogue() {
    let (bytes, has_status) = generate(&[ins(OperationCode::NOP, None, None, None)]);
    assert_eq!(bytes, framed(&[0x90]));
    assert!(!has_status);
}

#[test]
fn x86_empty_program_is_prologue_and_epilogue() {
    let (bytes, has_status) = generate(&[]);
    assert_eq!(bytes, framed(&[]));
    assert!(!has_status);
}

#[test]
fn x86_move_immediate_writes_both_halves() {
    let (bytes, _) = generate(&[ins(OperationCode::MOVE, reg(1), imm(0x1122_3344_5566_7788), None)]);
    let mut body = vec![0xB8, 0x88, 0x77, 0x66, 0x55, 0xBA, 0x44, 0x33, 0x22, 0x11, 0xA3];
    body.extend(le(0x1008));
    body.extend([0x89, 0x15]);
    body.extend(le(0x100C));
    assert_eq!(bytes, framed(&body));
}

#[test]
fn x86_iadd_adds_with_carry() {
    let (bytes, _) = generate(&[ins(OperationCode::IADD, reg(0), reg(1), reg(2))]);
    let mut body = vec![0xA1];
    body.extend(le(0x1008));
    body.extend([0x8B, 0x15]);
    body.extend(le(0x100C));
    body.extend([0x8B, 0x0D]);
    body.extend(le(0x1010));
    body.extend([0x8B, 0x1D]);
    body.extend(le(0x1014));
    body.extend([0x01, 0xC8, 0x11, 0xDA, 0xA3]);
    body.extend(le(0x1000));
    body.extend([0x89, 0x15]);
    body.extend(le(0x1004));
    assert_eq!(bytes, framed(&body));
}

#[test]
fn x86_jump_to_itself_goes_back_five_bytes() {
    let (bytes, _) = generate(&[ins(OperationCode::JMP, imm(0), None, None)]);
    assert_eq!(bytes, framed(&[0xE9, 0xFB, 0xFF, 0xFF, 0xFF]));
}

#[test]
fn x86_jump_out_of_range_lands_on_the_epilogue() {
    let (bytes, _) = generate(&[ins(OperationCode::JMP, imm(7), None, None)]);
    assert_eq!(bytes, framed(&[0xE9, 0x00, 0x00, 0x00, 0x00]));
}

#[test]
fn x86_shift_left_takes_two_paths() {
    let (bytes, _) = generate(&[ins(OperationCode::LSL, reg(0), imm(1), imm(40))]);
    let mut body = vec![0xB8, 0x01, 0x00, 0x00, 0x00, 0xBA, 0x00, 0x00, 0x00, 0x00];
    body.extend([0xB9, 40, 0, 0, 0]);
    body.extend([0x83, 0xE1, 0x3F, 0x83, 0xF9, 0x20, 0x0F, 0x82, 14, 0, 0, 0]);
    body.extend([0x83, 0xE9, 0x20, 0x89, 0xC2, 0x31, 0xC0, 0xD3, 0xE2, 0xE9, 5, 0, 0, 0]);
    body.extend([0x0F, 0xA5, 0xC2, 0xD3, 0xE0, 0xA3]);
    body.extend(le(0x1000));
    body.extend([0x89, 0x15]);
    body.extend(le(0x1004));
    assert_eq!(bytes, framed(&body));
}

#[test]
fn x86_equality_compares_both_halves() {
    let (bytes, _) = generate(&[ins(OperationCode::IEQ, reg(0), imm(1), imm(2))]);
    let mut body = vec![0xB8, 1, 0, 0, 0, 0xBA, 0, 0, 0, 0, 0xB9, 2, 0, 0, 0, 0xBB, 0, 0, 0, 0];
    body.extend([0x39, 0xDA, 0x0F, 0x85, 18, 0, 0, 0, 0x39, 0xC8, 0x0F, 0x85, 10, 0, 0, 0]);
    body.extend([0xB8, 1, 0, 0, 0, 0xE9, 2, 0, 0, 0, 0x31, 0xC0, 0x31, 0xD2, 0xA3]);
    body.extend(le(0x1000));
    body.extend([0x89, 0x15]);
    body.extend(le(0x1004));
    assert_eq!(bytes, framed(&body));
}

#[test]
fn x86_division_calls_its_helper_and_reports() {
    let (bytes, has_status) = generate(&[ins(OperationCode::UDIV, reg(0), reg(1), imm(2))]);
    let mut body = vec![0x83, 0xEC, 0x20, 0xA1];
    body.extend(le(0x1008));
    body.extend([0x8B, 0x15]);
    body.extend(le(0x100C));
    body.extend([0x89, 0x04, 0x24, 0x89, 0x54, 0x24, 0x04]);
    body.extend([0xB8, 2, 0, 0, 0, 0xBA, 0, 0, 0, 0]);
    body.extend([0x89, 0x44, 0x24, 0x08, 0x89, 0x54, 0x24, 0x0C]);
    body.extend([0x89, 0xE0, 0x83, 0xC0, 0x18, 0x89, 0x44, 0x24, 0x10, 0xB8]);
    body.extend(le(0x4000));
    body.extend([0x89, 0x44, 0x24, 0x14, 0xB8]);
    body.extend(le(0xB000));
    body.extend([0xFF, 0xD0, 0x89, 0xC1, 0x09, 0xD1]);
    body.extend([0x8B, 0x44, 0x24, 0x18, 0x8B, 0x54, 0x24, 0x1C, 0x83, 0xC4, 0x20, 0x85, 0xC9]);
    // `jnz <epilogue>`: over the 11 bytes of the store.
    body.extend([0x0F, 0x85, 11, 0, 0, 0, 0xA3]);
    body.extend(le(0x1000));
    body.extend([0x89, 0x15]);
    body.extend(le(0x1004));
    assert_eq!(bytes, framed(&body));
    assert!(has_status);
}

#[test]
fn x86_ret_has_error_stub_and_table() {
    let (bytes, has_status) = generate(&[ins(OperationCode::RET, None, None, None)]);
    let mut expected = PROLOGUE.to_vec();
    expected.extend([0x83, 0xEC, 0x10, 0xC7, 0x44, 0x24, 0x00]);
    expected.extend(le(0x2000));
    expected.push(0xB8);
    expected.extend(le(0x6000));
    expected.extend([0x89, 0x44, 0x24, 0x04, 0xB8]);
    expected.extend(le(0x8000));
    expected.extend([0xFF, 0xD0, 0x83, 0xC4, 0x10, 0x84, 0xC0]);
    // `jz <error stub>` (at 72, from 44)
    expected.extend([0x0F, 0x84, 28, 0, 0, 0, 0xA1]);
    expected.extend(le(0x6000));
    // The dynamic jump: table at 0x10000 + 100, one entry.
    expected.push(0xBA);
    expected.extend(le(0x10064));
    expected.push(0xB9);
    expected.extend(le(1));
    // `cmp eax, ecx`, `jae <epilogue>` (at 92, from 67)
    expected.extend([0x39, 0xC8, 0x0F, 0x83, 25, 0, 0, 0, 0x8B, 0x04, 0x82, 0xFF, 0xE0]);
    // The error stub writes both halves of the status.
    expected.extend([0xC7, 0x05]);
    expected.extend(le(0x4000));
    expected.extend(le(1));
    expected.extend([0xC7, 0x05]);
    expected.extend(le(0x4004));
    expected.extend(le(0));
    expected.extend(EPILOGUE);
    expected.push(0x90);
    expected.extend(le(0x10006));
    assert_eq!(bytes, expected);
    assert!(has_status);
}

#[test]
fn x86_immediate_destination_is_an_error() {
    let mut cg = JITCodegen::new(REGISTERS, 0x2000, 0x3000);
    let ctx = context();
    let program = [ins(OperationCode::IADD, imm(1), imm(2), imm(3))];
    assert!(cg.can_generate_x86(&program, &ctx));
    let err = cg.generate_x86(&program, &ctx).err().unwrap();
    assert!(matches!(err.kind, VMErrorKind::IncorrectTypeOfOperand { .. }));
}

#[test]
fn x86_wrong_operand_count_is_an_error() {
    let mut cg = JITCodegen::new(REGISTERS, 0x2000, 0x3000);
    let ctx = context();
    let program = [ins(OperationCode::RET, imm(1), None, None)];
    let err = cg.generate_x86(&program, &ctx).err().unwrap();
    assert!(matches!(err.kind, VMErrorKind::IncorrectNumberOfOperands { expected: 0, got: 1 }));
}

#[test]
fn x86_needs_32_bit_addresses() {
    let program = [ins(OperationCode::NOP, None, None, None)];
    let high = JITCodegen::new(0xFFFF_FF00, 0x2000, 0x3000);
    assert!(!high.can_generate_x86(&program, &context()));
    let mut ctx = context();
    ctx.scratch_addr = 0x1_0000_0000;
    let cg = JITCodegen::new(REGISTERS, 0x2000, 0x3000);
    assert!(!cg.can_generate_x86(&program, &ctx));
    let mut ctx = context();
    ctx.code_base = 0xFFFF_FFF0;
    assert!(cg.can_generate_x86(&program, &ctx));
    let ret = [ins(OperationCode::RET, None, None, None)];
    assert!(!cg.can_generate_x86(&ret, &ctx));
}

#[test]
fn x86_division_helpers_match_the_interpreter() {
    let mut out = VmcallOut::new();
    let mut result = 0u64;
    assert_eq!(jit_sdiv64((-7i64) as u64, 2, &mut result, &mut out), VmcallOut::OK);
    assert_eq!(result as i64, -3);
    assert_eq!(jit_srem64((-7i64) as u64, 2, &mut result, &mut out), VmcallOut::OK);
    assert_eq!(result as i64, -1);
    assert_eq!(jit_udiv64(7, 2, &mut result, &mut out), VmcallOut::OK);
    assert_eq!(result, 3);
    assert_eq!(jit_urem64(7, 2, &mut result, &mut out), VmcallOut::OK);
    assert_eq!(result, 1);
    assert_eq!(jit_sdiv64(i64::MIN as u64, (-1i64) as u64, &mut result, &mut out), VmcallOut::OK);
    assert_eq!(result, i64::MIN as u64);
    assert_eq!(out.status, VmcallOut::OK);
}

#[test]
fn x86_division_by_zero_reports_and_keeps_the_result() {
    let mut out = VmcallOut::new();
    let mut result = 42u64;
    assert_eq!(jit_udiv64(7, 0, &mut result, &mut out), VmcallOut::DIVISION_BY_ZERO);
    assert_eq!(result, 42);
    assert_eq!(out.status, VmcallOut::DIVISION_BY_ZERO);
    assert_eq!(jit_srem64(7, 0, &mut result, &mut out), VmcallOut::DIVISION_BY_ZERO);
    assert_eq!(result, 42);
}

#[test]
fn x86_falling_off_the_end_jumps_over_the_error_stub() {
    let program = [
        ins(OperationCode::JMP, imm(2), None, None),
        ins(OperationCode::RET, None, None, None),
        ins(OperationCode::NOP, None, None, None),
    ];
    let (bytes, has_status) = generate(&program);
    assert!(has_status);
    // JMP at 6 (5 bytes), RET at 11 (66 bytes), NOP at 77: the body ends
    // at 78, where the closing `jmp` over the 20-byte stub lands on the
    // epilogue at 103.
    assert_eq!(bytes[77], 0x90);
    assert_eq!(&bytes[78..83], &[0xE9, 20, 0, 0, 0]);
    assert_eq!(&bytes[83..85], &[0xC7, 0x05]);
    assert_eq!(&bytes[103..110], &EPILOGUE);
}

#[test]
fn x86_register_255_is_an_invalid_register() {
    let mut cg = JITCodegen::new(REGISTERS, 0x2000, 0x3000);
    let ctx = context();
    let program = [ins(OperationCode::JMP, reg(255), None, None)];
    assert!(cg.can_generate_x86(&program, &ctx));
    let e = cg.generate_x86(&program, &ctx).err().unwrap();
    assert!(matches!(e.kind, VMErrorKind::InvalidRegister { got: 255 }));
}
