//! Errors of the virtual machine.
use vstd::prelude::*;

use crate::isa::operand::OperandKind;
use crate::vm::jit::memory::MemoryProtection;

verus! {

/// What went wrong while running a program.
#[allow(inconsistent_fields)]
#[derive(Debug)]
pub enum VMErrorKind {
    /// Incorrect number of operands (e.g. `MOVE R1, R2, R3`).
    IncorrectNumberOfOperands { expected: u8, got: u8 },
    /// Incorrect operand type (e.g. `MOVE 0, R0`: the destination of `MOVE`
    /// must be a register).
    IncorrectTypeOfOperand { expected: OperandKind, got: OperandKind },
    /// A register number outside 0-254.
    InvalidRegister { got: u8 },
    /// A memory access outside the memory.
    InvalidAddress { got: usize, memory_length: usize },
    /// Division (or remainder) by zero.
    DivisionByZero,
    /// `RET` without a matching `CALL`.
    EmptyCallStack,
    /// A `VMCALL` that no host serves.
    UnknownVMCallService { service: u64 },
    /// The executable memory of the JIT could not be allocated.
    JITAllocationFailed,
    /// An access outside the executable memory of the JIT.
    JITMemoryOutOfBounds,
    /// The protection of the executable memory could not be changed.
    JITMemoryProtectionFailed,
    /// Code cannot be written into memory with the given protection.
    CantWriteCodeInTheCurrentPage(MemoryProtection),
}

/// The message that describes an error of the machine.
pub open spec fn vm_message(e: VMErrorKind) -> Seq<char> {
    match e {
        VMErrorKind::IncorrectNumberOfOperands { expected, got } => "expected "@
            + crate::text::decimal(expected as nat) + " operands, but got "@ + crate::text::decimal(
            got as nat,
        ) + " operands"@,
        VMErrorKind::IncorrectTypeOfOperand { expected, got } => "expected type "@ + operand_type_text(expected)
            + ", but got "@ + operand_type_text(got) + " type"@,
        VMErrorKind::InvalidRegister { got } => "invalid register number "@ + crate::text::decimal(
            got as nat,
        ) + ": the register number must be in the range 0-254"@,
        VMErrorKind::InvalidAddress { got, memory_length } => "memory access out of bounds: address "@
            + crate::text::decimal(got as nat) + " is outside memory (size: "@ + crate::text::decimal(
            memory_length as nat,
        ) + " bytes)"@,
        VMErrorKind::DivisionByZero => "division by zero"@,
        VMErrorKind::EmptyCallStack => "empty call stack"@,
        VMErrorKind::UnknownVMCallService { service } => "unknown syscall service: "@
            + crate::text::decimal(service as nat),
        VMErrorKind::JITAllocationFailed => "JIT compiler's memory allocation failed"@,
        VMErrorKind::JITMemoryOutOfBounds => "JIT compiler's memory out of bounds"@,
        VMErrorKind::JITMemoryProtectionFailed => "failed to change JIT memory protection"@,
        VMErrorKind::CantWriteCodeInTheCurrentPage(protection) =>
            "It is not possible to write code on the current page because the current protection is "@
            + crate::vm::jit::memory::protection_text(protection.bits),
    }
}

/// The name of an operand's type in messages.
pub open spec fn operand_type_text(k: OperandKind) -> Seq<char> {
    match k {
        OperandKind::Immediate(_) => "value"@,
        OperandKind::Register(_) => "register"@,
    }
}

impl VMErrorKind {
    /// The message that describes this error.
    pub fn to_string(&self) -> (r: String)
        ensures
            r@ == vm_message(*self),
    {
        match self {
            VMErrorKind::IncorrectNumberOfOperands { expected, got } => {
                let mut s = String::from_str("expected ");
                crate::text::push_decimal(&mut s, *expected as u64);
                s.append(" operands, but got ");
                crate::text::push_decimal(&mut s, *got as u64);
                s.append(" operands");
                s
            },
            VMErrorKind::IncorrectTypeOfOperand { expected, got } => {
                let mut s = String::from_str("expected type ");
                s.append(expected.kind());
                s.append(", but got ");
                s.append(got.kind());
                s.append(" type");
                s
            },
            VMErrorKind::InvalidRegister { got } => {
                let mut s = String::from_str("invalid register number ");
                crate::text::push_decimal(&mut s, *got as u64);
                s.append(": the register number must be in the range 0-254");
                s
            },
            VMErrorKind::InvalidAddress { got, memory_length } => {
                let mut s = String::from_str("memory access out of bounds: address ");
                crate::text::push_decimal(&mut s, *got as u64);
                s.append(" is outside memory (size: ");
                crate::text::push_decimal(&mut s, *memory_length as u64);
                s.append(" bytes)");
                s
            },
            VMErrorKind::DivisionByZero => String::from_str("division by zero"),
            VMErrorKind::EmptyCallStack => String::from_str("empty call stack"),
            VMErrorKind::UnknownVMCallService { service } => {
                let mut s = String::from_str("unknown syscall service: ");
                crate::text::push_decimal(&mut s, *service);
                s
            },
            VMErrorKind::JITAllocationFailed => String::from_str("JIT compiler's memory allocation failed"),
            VMErrorKind::JITMemoryOutOfBounds => String::from_str("JIT compiler's memory out of bounds"),
            VMErrorKind::JITMemoryProtectionFailed => String::from_str("failed to change JIT memory protection"),
            VMErrorKind::CantWriteCodeInTheCurrentPage(protection) => {
                let s = String::from_str(
                    "It is not possible to write code on the current page because the current protection is ",
                );
                let t = protection.to_string();
                s.concat(t.as_str())
            },
        }
    }
}

/// An error of the virtual machine.
#[derive(Debug)]
pub struct VMError {
    pub kind: VMErrorKind,
}

impl VMError {
    pub fn new(kind: VMErrorKind) -> (r: Self)
        ensures
            r.kind == kind,
    {
        Self { kind }
    }

    /// The message that describes this error.
    pub fn to_string(&self) -> (r: String)
        ensures
            r@ == vm_message(self.kind),
    {
        self.kind.to_string()
    }
}

} // verus!
