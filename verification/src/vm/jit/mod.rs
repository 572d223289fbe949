//! # The JIT compiler of W8
//!
//! The JIT compiles the program into native machine code, writes it into a
//! region of executable memory and runs it. The generated code reaches the
//! parts of the machine it cannot touch itself (the call stack, the host of
//! `VMCALL`) through small `extern "C"` functions of the host binary, the
//! *trampolines*; it never writes into its own region, which is
//! read-execute while it runs (W^X).
//!
//! - [`codegen`]: the generators of x64 and x86 machine code;
//! - [`memory`]: the protection flags of the executable memory.
//!
//! What the trampolines and the JIT decide is here: the trampolines
//! themselves, and the executable memory, belong to the host binary.
pub mod codegen;
pub mod memory;

use vstd::prelude::*;

use crate::isa::opcode::OperationCode;
use crate::vm::err::{VMError, VMErrorKind};
use crate::vm::semantics::Shape;
use crate::vm::jit::codegen::VmcallOut;
use crate::vm::{VMCallDecision, WVM};

verus! {

/// What a run of generated code comes to, from the status cell of the out
/// block (read only where the program can report into it): success, or the
/// error that the cell and its details describe.
pub fn status_outcome(has_status: bool, out: &VmcallOut) -> (r: Result<(), VMError>)
    requires
        has_status ==> out.status <= VmcallOut::DIVISION_BY_ZERO,
    ensures
        !has_status ==> r is Ok,
        has_status ==> match out.status {
            0 | 2 => r is Ok,
            1 => r matches Err(e) && e.kind == VMErrorKind::EmptyCallStack,
            3 => r matches Err(e) && e.kind == (VMErrorKind::UnknownVMCallService { service: out.info0 }),
            5 => r matches Err(e) && e.kind == VMErrorKind::DivisionByZero,
            _ => r matches Err(e) && e.kind == (VMErrorKind::InvalidAddress {
                got: out.info0 as usize,
                memory_length: out.info1 as usize,
            }),
        },
{
    if !has_status {
        return Ok(());
    }
    if out.status == VmcallOut::OK || out.status == VmcallOut::VMCALL_EXIT {
        Ok(())
    } else if out.status == VmcallOut::EMPTY_CALL_STACK {
        Err(VMError::new(VMErrorKind::EmptyCallStack))
    } else if out.status == VmcallOut::UNKNOWN_SERVICE {
        Err(VMError::new(VMErrorKind::UnknownVMCallService { service: out.info0 }))
    } else if out.status == VmcallOut::DIVISION_BY_ZERO {
        Err(VMError::new(VMErrorKind::DivisionByZero))
    } else {
        Err(
            VMError::new(
                VMErrorKind::InvalidAddress {
                    got: out.info0 as usize,
                    memory_length: out.info1 as usize,
                },
            ),
        )
    }
}

/// What the `CALL` trampoline does: pushes the return index onto the call
/// stack.
pub fn push_return(stack: &mut Vec<usize>, ret_idx: usize)
    ensures
        final(stack)@ == old(stack)@.push(ret_idx),
{
    stack.push(ret_idx);
}

/// What the `RET` trampoline does: pops the return index into `out` and
/// answers `1`, or answers `0` on an empty stack (leaving `out` alone).
pub fn pop_return(stack: &mut Vec<usize>, out: &mut usize) -> (r: u8)
    ensures
        old(stack)@.len() == 0 ==> r == 0 && final(stack)@ == old(stack)@ && *final(out) == *old(out),
        old(stack)@.len() > 0 ==> r == 1 && final(stack)@ == old(stack)@.drop_last() && *final(out)
            == old(stack)@.last(),
{
    match stack.pop() {
        Some(value) => {
            *out = value;
            1
        },
        None => 0,
    }
}

/// The checks of the `VMCALL` trampoline before the host is called, as the
/// interpreter makes them: the block `address..address + size` must lie
/// within the memory (else `INVALID_ADDRESS`, with the address and the
/// memory length as details), and a host must serve the call (else
/// `UNKNOWN_SERVICE`, with the service number). A failure is written into
/// `out` and answered; `OK` leaves `out` alone.
pub fn vmcall_precheck(
    out: &mut VmcallOut,
    service: u64,
    address: u64,
    size: u64,
    memory_len: usize,
    has_host: bool,
) -> (r: u64)
    ensures
        (address as usize) + (size as usize) > memory_len ==> r == VmcallOut::INVALID_ADDRESS
            && *final(out) == (VmcallOut {
            status: VmcallOut::INVALID_ADDRESS,
            info0: (address as usize) as u64,
            info1: memory_len as u64,
            ..*old(out)
        }),
        (address as usize) + (size as usize) <= memory_len && !has_host ==> r
            == VmcallOut::UNKNOWN_SERVICE && *final(out) == (VmcallOut {
            status: VmcallOut::UNKNOWN_SERVICE,
            info0: service,
            ..*old(out)
        }),
        (address as usize) + (size as usize) <= memory_len && has_host ==> r == VmcallOut::OK
            && *final(out) == *old(out),
{
    let address = address as usize;
    let size = size as usize;
    let end = match address.checked_add(size) {
        Some(end) => end,
        None => {
            out.status = VmcallOut::INVALID_ADDRESS;
            out.info0 = address as u64;
            out.info1 = memory_len as u64;
            return VmcallOut::INVALID_ADDRESS;
        },
    };
    if end > memory_len {
        out.status = VmcallOut::INVALID_ADDRESS;
        out.info0 = address as u64;
        out.info1 = memory_len as u64;
        return VmcallOut::INVALID_ADDRESS;
    }
    if !has_host {
        out.status = VmcallOut::UNKNOWN_SERVICE;
        out.info0 = service;
        return VmcallOut::UNKNOWN_SERVICE;
    }
    VmcallOut::OK
}

impl WVM {
    /// Records the host's answer to a `VMCALL` made by generated code: the
    /// memory base is refreshed (the host may have replaced the buffer);
    /// `Continue` answers `OK`; `Exit` stores the exit code and answers
    /// `VMCALL_EXIT`, which stops the code.
    pub fn conclude_vmcall(&mut self, out: &mut VmcallOut, decision: VMCallDecision, membase: u64) -> (r: u64)
        ensures
            final(out).membase == membase,
            final(out).info0 == old(out).info0,
            final(out).info1 == old(out).info1,
            final(self).registers@ == old(self).registers@,
            final(self).memory@ == old(self).memory@,
            final(self).call_stack@ == old(self).call_stack@,
            final(self).program == old(self).program,
            final(self).executeby == old(self).executeby,
            match decision {
                VMCallDecision::Continue => r == VmcallOut::OK && final(out).status == VmcallOut::OK
                    && final(self).exit_code == old(self).exit_code,
                VMCallDecision::Exit { code } => r == VmcallOut::VMCALL_EXIT && final(out).status
                    == VmcallOut::VMCALL_EXIT && final(self).exit_code == Some(code),
            },
    {
        out.membase = membase;
        match decision {
            VMCallDecision::Continue => {
                out.status = VmcallOut::OK;
                VmcallOut::OK
            },
            VMCallDecision::Exit { code } => {
                self.exit_code = Some(code);
                out.status = VmcallOut::VMCALL_EXIT;
                VmcallOut::VMCALL_EXIT
            },
        }
    }
}

/// What a division helper of 32-bit code does (the code has no 64-bit
/// divide): on a zero divisor it reports `DIVISION_BY_ZERO` into the out
/// block and answers it, leaving `result` alone; otherwise it writes the
/// result as the interpreter computes it and answers `OK`.
pub fn divide_for_code(op: OperationCode, lhs: u64, rhs: u64, result: &mut u64, out: &mut VmcallOut) -> (r: u64)
    requires
        crate::vm::semantics::shape(op) == Shape::Division,
    ensures
        rhs == 0 ==> r == VmcallOut::DIVISION_BY_ZERO && *final(out) == (VmcallOut {
            status: VmcallOut::DIVISION_BY_ZERO,
            ..*old(out)
        }) && *final(result) == *old(result),
        rhs != 0 ==> r == VmcallOut::OK && *final(out) == (VmcallOut { status: VmcallOut::OK, ..*old(out) })
            && *final(result) == crate::vm::semantics::division(op, lhs, rhs),
{
    if rhs == 0 {
        out.status = VmcallOut::DIVISION_BY_ZERO;
        return VmcallOut::DIVISION_BY_ZERO;
    }
    *result = crate::vm::interpreter::handlers::quotient(op, lhs, rhs);
    out.status = VmcallOut::OK;
    VmcallOut::OK
}

/// The signed division helper (`wrapping_div` on the signed values).
pub fn jit_sdiv64(lhs: u64, rhs: u64, result: &mut u64, out: &mut VmcallOut) -> (r: u64)
    ensures
        rhs == 0 ==> r == VmcallOut::DIVISION_BY_ZERO && *final(out) == (VmcallOut {
            status: VmcallOut::DIVISION_BY_ZERO,
            ..*old(out)
        }) && *final(result) == *old(result),
        rhs != 0 ==> r == VmcallOut::OK && *final(out) == (VmcallOut { status: VmcallOut::OK, ..*old(out) })
            && *final(result) == crate::vm::semantics::signed_div(lhs, rhs),
{
    divide_for_code(OperationCode::SDIV, lhs, rhs, result, out)
}

/// The unsigned division helper.
pub fn jit_udiv64(lhs: u64, rhs: u64, result: &mut u64, out: &mut VmcallOut) -> (r: u64)
    ensures
        rhs == 0 ==> r == VmcallOut::DIVISION_BY_ZERO && *final(out) == (VmcallOut {
            status: VmcallOut::DIVISION_BY_ZERO,
            ..*old(out)
        }) && *final(result) == *old(result),
        rhs != 0 ==> r == VmcallOut::OK && *final(out) == (VmcallOut { status: VmcallOut::OK, ..*old(out) })
            && *final(result) == lhs / rhs,
{
    divide_for_code(OperationCode::UDIV, lhs, rhs, result, out)
}

/// The signed remainder helper (`wrapping_rem` on the signed values).
pub fn jit_srem64(lhs: u64, rhs: u64, result: &mut u64, out: &mut VmcallOut) -> (r: u64)
    ensures
        rhs == 0 ==> r == VmcallOut::DIVISION_BY_ZERO && *final(out) == (VmcallOut {
            status: VmcallOut::DIVISION_BY_ZERO,
            ..*old(out)
        }) && *final(result) == *old(result),
        rhs != 0 ==> r == VmcallOut::OK && *final(out) == (VmcallOut { status: VmcallOut::OK, ..*old(out) })
            && *final(result) == crate::vm::semantics::signed_rem(lhs, rhs),
{
    divide_for_code(OperationCode::SREM, lhs, rhs, result, out)
}

/// The unsigned remainder helper.
pub fn jit_urem64(lhs: u64, rhs: u64, result: &mut u64, out: &mut VmcallOut) -> (r: u64)
    ensures
        rhs == 0 ==> r == VmcallOut::DIVISION_BY_ZERO && *final(out) == (VmcallOut {
            status: VmcallOut::DIVISION_BY_ZERO,
            ..*old(out)
        }) && *final(result) == *old(result),
        rhs != 0 ==> r == VmcallOut::OK && *final(out) == (VmcallOut { status: VmcallOut::OK, ..*old(out) })
            && *final(result) == lhs % rhs,
{
    divide_for_code(OperationCode::UREM, lhs, rhs, result, out)
}

} // verus!
