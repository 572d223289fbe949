//! # W8 operands
//!
//! An operand is an instruction argument: a register or an immediate value.
use vstd::prelude::*;

use crate::isa::register::Register;
use crate::vm::err::{VMError, VMErrorKind};

verus! {

/// The kind (and payload) of an operand.
#[derive(Debug, Clone, Copy, PartialEq, Eq, Structural)]
pub enum OperandKind {
    /// A virtual machine register.
    Register(Register),
    /// An immediate 64-bit value.
    Immediate(u64),
}

impl OperandKind {
    /// The name of the operand's type, as used in error messages:
    /// `"register"` or `"value"`.
    pub fn kind(&self) -> (r: &str)
        ensures
            self is Immediate ==> r@ == "value"@,
            self is Register ==> r@ == "register"@,
    {
        match self {
            Self::Immediate(_) => "value",
            Self::Register(_) => "register",
        }
    }

    /// The text of the operand: the register, or the immediate in decimal.
    pub fn to_string(&self) -> (r: String)
        ensures
            r@ == operand_text(*self),
    {
        match self {
            Self::Immediate(v) => crate::text::to_decimal(*v),
            Self::Register(r) => r.to_string(),
        }
    }
}

/// The text of an operand: the register, or the immediate in decimal.
pub open spec fn operand_text(k: OperandKind) -> Seq<char> {
    match k {
        OperandKind::Immediate(v) => crate::text::decimal(v as nat),
        OperandKind::Register(r) => crate::isa::register::register_text(r),
    }
}

/// An instruction operand.
#[derive(Debug, Clone, Copy, PartialEq, Eq, Structural)]
pub struct Operand {
    pub kind: OperandKind,
}

/// The error that a use of `got` where a register is required produces.
pub open spec fn not_a_register(got: OperandKind) -> VMError {
    VMError {
        kind: VMErrorKind::IncorrectTypeOfOperand {
            expected: OperandKind::Register(Register(0)),
            got,
        },
    }
}

/// The error that a use of `got` where an immediate is required produces.
pub open spec fn not_an_immediate(got: OperandKind) -> VMError {
    VMError {
        kind: VMErrorKind::IncorrectTypeOfOperand { expected: OperandKind::Immediate(0), got },
    }
}

impl Operand {
    /// The text of the operand.
    pub fn to_string(&self) -> (r: String)
        ensures
            r@ == operand_text(self.kind),
    {
        self.kind.to_string()
    }

    /// The register of a register operand; an `IncorrectTypeOfOperand`
    /// error for an immediate.
    pub fn expect_register(&self) -> (r: Result<Register, VMError>)
        ensures
            match self.kind {
                OperandKind::Register(reg) => r == Ok::<Register, VMError>(reg),
                OperandKind::Immediate(_) => r == Err::<Register, VMError>(
                    not_a_register(self.kind),
                ),
            },
    {
        match self.kind {
            OperandKind::Register(r) => Ok(r),
            got => Err(
                VMError::new(
                    VMErrorKind::IncorrectTypeOfOperand {
                        expected: OperandKind::Register(Register(0)),
                        got,
                    },
                ),
            ),
        }
    }

    /// The value of an immediate operand; an `IncorrectTypeOfOperand`
    /// error for a register.
    pub fn expect_immediate(&self) -> (r: Result<u64, VMError>)
        ensures
            match self.kind {
                OperandKind::Immediate(v) => r == Ok::<u64, VMError>(v),
                OperandKind::Register(_) => r == Err::<u64, VMError>(
                    not_an_immediate(self.kind),
                ),
            },
    {
        match self.kind {
            OperandKind::Immediate(r) => Ok(r),
            got => Err(
                VMError::new(
                    VMErrorKind::IncorrectTypeOfOperand { expected: OperandKind::Immediate(0), got },
                ),
            ),
        }
    }
}

} // verus!
