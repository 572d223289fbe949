//! # W8 ISA
//!
//! The instruction set of the W8 virtual machine.
pub mod err;
pub mod instruction;
pub mod opcode;
pub mod operand;
pub mod register;
