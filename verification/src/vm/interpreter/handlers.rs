//! # Handlers
//!
//! One handler per family of instructions. A handler receives the values
//! that the instruction's slots read (and its destination register) and
//! follows [`step_values`] exactly.
use vstd::prelude::*;

use crate::isa::opcode::OperationCode;
use crate::isa::register::Register;
use crate::vm::err::{VMError, VMErrorKind};
use crate::vm::interpreter::{Flow, HandlerResult};
use crate::vm::semantics::{MachineState, Shape, Step};
use crate::vm::WVM;

verus! {

/// The sign bit of a 64-bit word.
const SIGN_BIT: u64 = 0x8000_0000_0000_0000;

/// Whether a handler result `r`, and the state `after` it left, are what
/// the step `s` from the state `before` prescribes.
pub open spec fn outcome(r: HandlerResult, before: MachineState, after: MachineState, s: Step) -> bool {
    match s {
        Step::Next { ip, state } => r == Ok::<Flow, VMError>(Flow::Next(ip as usize)) && after == state,
        Step::Trap { error } => (r matches Err(e) && e.kind == error) && after == before,
        Step::Host { service, address, size } => r == Ok::<Flow, VMError>(
            Flow::Host { service, address, size },
        ) && after == before,
        Step::Float { op, dst, lhs, rhs } => r == Ok::<Flow, VMError>(
            Flow::Float { op, dst, lhs, rhs },
        ) && after == before,
        Step::InvalidSignature => r == Ok::<Flow, VMError>(Flow::InvalidSignature) && after == before,
    }
}

/// A handler for an instruction of opcode `op` with destination `dst` and
/// slot values `v1`, `v2`, `v3` at `ip` did what the semantics prescribe,
/// and left the program alone.
pub open spec fn handled(
    r: HandlerResult,
    before: &WVM,
    after: &WVM,
    op: OperationCode,
    dst: Register,
    v1: u64,
    v2: u64,
    v3: u64,
    ip: usize,
    host: bool,
) -> bool {
    &&& outcome(
        r,
        before.state(),
        after.state(),
        crate::vm::semantics::step_values(op, dst, v1, v2, v3, ip as int, before.state(), host),
    )
    &&& after.program == before.program
    &&& after.executeby == before.executeby
}

/// `NOP`.
pub(crate) fn nop(ip: usize) -> (r: HandlerResult)
    requires
        ip < usize::MAX,
    ensures
        r == Ok::<Flow, VMError>(Flow::Next((ip + 1) as usize)),
{
    Ok(Flow::Next(ip + 1))
}

/// `RET`: pops the return address.
pub(crate) fn ret(vm: &mut WVM, op: OperationCode, dst: Register, v1: u64, v2: u64, v3: u64, ip: usize, host: bool) -> (r: HandlerResult)
    requires
        crate::vm::semantics::shape(op) == Shape::Ret,
    ensures
        handled(r, old(vm), final(vm), op, dst, v1, v2, v3, ip, host),
{
    match vm.call_stack.pop() {
        Some(target) => Ok(Flow::Next(target)),
        None => Err(VMError::new(VMErrorKind::EmptyCallStack)),
    }
}

/// A division by zero is an error.
pub(crate) fn ensure_nonzero_divisor(rhs: u64) -> (r: Result<(), VMError>)
    ensures
        rhs == 0 ==> (r matches Err(e) && e.kind == VMErrorKind::DivisionByZero),
        rhs != 0 ==> r is Ok,
{
    if rhs == 0 {
        Err(VMError::new(VMErrorKind::DivisionByZero))
    } else {
        Ok(())
    }
}

/// `MOVE`.
pub(crate) fn move_(vm: &mut WVM, op: OperationCode, dst: Register, v1: u64, v2: u64, v3: u64, ip: usize, host: bool) -> (r: HandlerResult)
    requires
        crate::vm::semantics::shape(op) == Shape::Move,
        dst.is_valid(),
        ip < usize::MAX,
    ensures
        handled(r, old(vm), final(vm), op, dst, v1, v2, v3, ip, host),
{
    vm.registers.set(dst, v2);
    Ok(Flow::Next(ip + 1))
}

/// `LOAD*`: reads the memory at the address `v2`.
pub(crate) fn load(vm: &mut WVM, op: OperationCode, dst: Register, v1: u64, v2: u64, v3: u64, ip: usize, host: bool) -> (r: HandlerResult)
    requires
        crate::vm::semantics::shape(op) == Shape::Load,
        dst.is_valid(),
        ip < usize::MAX,
    ensures
        handled(r, old(vm), final(vm), op, dst, v1, v2, v3, ip, host),
{
    let address = v2 as usize;
    let value: Option<u64> = match op {
        OperationCode::LOAD8 => match vm.memory.load_u8(address) {
            Some(v) => Some(v as u64),
            None => None,
        },
        OperationCode::LOAD16 => match vm.memory.load_u16(address) {
            Some(v) => Some(v as u64),
            None => None,
        },
        OperationCode::LOAD32 => match vm.memory.load_u32(address) {
            Some(v) => Some(v as u64),
            None => None,
        },
        _ => vm.memory.load_u64(address),
    };
    match value {
        Some(v) => {
            vm.registers.set(dst, v);
            Ok(Flow::Next(ip + 1))
        },
        None => Err(
            VMError::new(
                VMErrorKind::InvalidAddress { got: address, memory_length: vm.memory.len() },
            ),
        ),
    }
}

/// `STORE*`: writes the low bytes of `v2` at the address `v1`.
pub(crate) fn store(vm: &mut WVM, op: OperationCode, dst: Register, v1: u64, v2: u64, v3: u64, ip: usize, host: bool) -> (r: HandlerResult)
    requires
        crate::vm::semantics::shape(op) == Shape::Store,
        ip < usize::MAX,
    ensures
        handled(r, old(vm), final(vm), op, dst, v1, v2, v3, ip, host),
{
    let address = v1 as usize;
    let len = vm.memory.len();
    let done = match op {
        OperationCode::STORE8 => vm.memory.store_u8(address, v2 as u8),
        OperationCode::STORE16 => vm.memory.store_u16(address, v2 as u16),
        OperationCode::STORE32 => vm.memory.store_u32(address, v2 as u32),
        _ => vm.memory.store_u64(address, v2),
    };
    match done {
        Some(()) => Ok(Flow::Next(ip + 1)),
        None => Err(
            VMError::new(VMErrorKind::InvalidAddress { got: address, memory_length: len }),
        ),
    }
}

/// The two's-complement value of `x` is negative.
fn is_negative(x: u64) -> (r: bool)
    ensures
        r == (x >= crate::vm::semantics::sign_bit()),
{
    x >= SIGN_BIT
}

/// The magnitude of the two's-complement value of `x`.
fn magnitude(x: u64) -> (r: u64)
    ensures
        r == crate::vm::semantics::magnitude(x),
{
    if x < SIGN_BIT {
        x
    } else {
        0u64.wrapping_sub(x)
    }
}

/// Signed `l < r` on two's-complement words.
fn signed_less(l: u64, r: u64) -> (b: bool)
    ensures
        b == (crate::vm::semantics::signed(l) < crate::vm::semantics::signed(r)),
{
    let ln = is_negative(l);
    let rn = is_negative(r);
    if ln != rn {
        ln
    } else {
        l < r
    }
}

/// `1` for true, `0` for false.
fn flag(b: bool) -> (r: u64)
    ensures
        r == crate::vm::semantics::flag(b),
{
    if b {
        1
    } else {
        0
    }
}

/// The integer operations with two sources.
pub(crate) fn int_binary(vm: &mut WVM, op: OperationCode, dst: Register, v1: u64, v2: u64, v3: u64, ip: usize, host: bool) -> (r: HandlerResult)
    requires
        crate::vm::semantics::shape(op) == Shape::IntBinary,
        dst.is_valid(),
        ip < usize::MAX,
    ensures
        handled(r, old(vm), final(vm), op, dst, v1, v2, v3, ip, host),
{
    let l = v2;
    let r = v3;
    let value: u64 = match op {
        OperationCode::IADD => l.wrapping_add(r),
        OperationCode::ISUB => l.wrapping_sub(r),
        OperationCode::IMUL => l.wrapping_mul(r),
        OperationCode::AND => l & r,
        OperationCode::OR => l | r,
        OperationCode::XOR => l ^ r,
        OperationCode::LSL => l << (r % 64),
        OperationCode::LSR => l >> (r % 64),
        OperationCode::SAR => {
            let s = r % 64;
            if l < SIGN_BIT {
                l >> s
            } else {
                !((!l) >> s)
            }
        },
        OperationCode::IEQ => flag(l == r),
        OperationCode::INE => flag(l != r),
        OperationCode::SLT => flag(signed_less(l, r)),
        OperationCode::SLE => flag(!signed_less(r, l)),
        OperationCode::SGT => flag(signed_less(r, l)),
        OperationCode::SGE => flag(!signed_less(l, r)),
        OperationCode::ULT => flag(l < r),
        OperationCode::ULE => flag(l <= r),
        OperationCode::UGT => flag(l > r),
        _ => flag(l >= r),
    };
    vm.registers.set(dst, value);
    Ok(Flow::Next(ip + 1))
}

/// Division and remainder; a zero divisor is an error.
pub(crate) fn division(vm: &mut WVM, op: OperationCode, dst: Register, v1: u64, v2: u64, v3: u64, ip: usize, host: bool) -> (r: HandlerResult)
    requires
        crate::vm::semantics::shape(op) == Shape::Division,
        dst.is_valid(),
        ip < usize::MAX,
    ensures
        handled(r, old(vm), final(vm), op, dst, v1, v2, v3, ip, host),
{
    match ensure_nonzero_divisor(v3) {
        Ok(()) => {},
        Err(e) => {
            return Err(e);
        },
    }
    let value = quotient(op, v2, v3);
    vm.registers.set(dst, value);
    Ok(Flow::Next(ip + 1))
}

/// The result of a division or remainder by `r != 0`: signed division
/// truncates toward zero, modulo `2^64`.
pub(crate) fn quotient(op: OperationCode, l: u64, r: u64) -> (v: u64)
    requires
        r != 0,
    ensures
        crate::vm::semantics::shape(op) == Shape::Division ==> v == crate::vm::semantics::division(op, l, r),
{
    match op {
        OperationCode::SDIV => {
            let q = magnitude(l) / magnitude(r);
            if is_negative(l) != is_negative(r) {
                0u64.wrapping_sub(q)
            } else {
                q
            }
        },
        OperationCode::UDIV => l / r,
        OperationCode::SREM => {
            let m = magnitude(l) % magnitude(r);
            if is_negative(l) {
                0u64.wrapping_sub(m)
            } else {
                m
            }
        },
        _ => l % r,
    }
}

/// `INEG` and `NOT`.
pub(crate) fn int_unary(vm: &mut WVM, op: OperationCode, dst: Register, v1: u64, v2: u64, v3: u64, ip: usize, host: bool) -> (r: HandlerResult)
    requires
        crate::vm::semantics::shape(op) == Shape::IntUnary,
        dst.is_valid(),
        ip < usize::MAX,
    ensures
        handled(r, old(vm), final(vm), op, dst, v1, v2, v3, ip, host),
{
    let value: u64 = match op {
        OperationCode::INEG => 0u64.wrapping_sub(v2),
        _ => !v2,
    };
    vm.registers.set(dst, value);
    Ok(Flow::Next(ip + 1))
}

/// Floating-point operations: handed back to the caller, which computes
/// them.
pub(crate) fn float(vm: &mut WVM, op: OperationCode, dst: Register, v1: u64, v2: u64, v3: u64, ip: usize, host: bool) -> (r: HandlerResult)
    requires
        crate::vm::semantics::shape(op) == Shape::FloatBinary || crate::vm::semantics::shape(op)
            == Shape::FloatUnary,
    ensures
        handled(r, old(vm), final(vm), op, dst, v1, v2, v3, ip, host),
{
    if op == OperationCode::FNEG {
        Ok(Flow::Float { op, dst, lhs: v2, rhs: 0 })
    } else {
        Ok(Flow::Float { op, dst, lhs: v2, rhs: v3 })
    }
}

/// `JMP`, `JZ` and `JNZ`.
pub(crate) fn jump(vm: &mut WVM, op: OperationCode, dst: Register, v1: u64, v2: u64, v3: u64, ip: usize, host: bool) -> (r: HandlerResult)
    requires
        crate::vm::semantics::shape(op) == Shape::Jump || crate::vm::semantics::shape(op)
            == Shape::JumpIf,
        ip < usize::MAX,
    ensures
        handled(r, old(vm), final(vm), op, dst, v1, v2, v3, ip, host),
{
    if op == OperationCode::JMP {
        return Ok(Flow::Next(v1 as usize));
    }
    let taken = if op == OperationCode::JZ {
        v1 == 0
    } else {
        v1 != 0
    };
    if taken {
        Ok(Flow::Next(v2 as usize))
    } else {
        Ok(Flow::Next(ip + 1))
    }
}

/// `CALL`: pushes the index of the next instruction and jumps.
pub(crate) fn call(vm: &mut WVM, op: OperationCode, dst: Register, v1: u64, v2: u64, v3: u64, ip: usize, host: bool) -> (r: HandlerResult)
    requires
        crate::vm::semantics::shape(op) == Shape::Call,
        ip < usize::MAX,
    ensures
        handled(r, old(vm), final(vm), op, dst, v1, v2, v3, ip, host),
{
    vm.call_stack.push(ip + 1);
    Ok(Flow::Next(v1 as usize))
}

/// `VMCALL`: checks the block of arguments, then asks the host.
pub(crate) fn vmcall(vm: &mut WVM, op: OperationCode, dst: Register, v1: u64, v2: u64, v3: u64, ip: usize, host: bool) -> (r: HandlerResult)
    requires
        crate::vm::semantics::shape(op) == Shape::VmCall,
    ensures
        handled(r, old(vm), final(vm), op, dst, v1, v2, v3, ip, host),
{
    let service = v1;
    let address = v2 as usize;
    let size = v3 as usize;
    let len = vm.memory.len();
    let end = match address.checked_add(size) {
        Some(end) => end,
        None => {
            return Err(
                VMError::new(VMErrorKind::InvalidAddress { got: address, memory_length: len }),
            );
        },
    };
    if end > len {
        return Err(VMError::new(VMErrorKind::InvalidAddress { got: address, memory_length: len }));
    }
    if !host {
        return Err(VMError::new(VMErrorKind::UnknownVMCallService { service }));
    }
    Ok(Flow::Host { service, address, size })
}

} // verus!
