//! W8: a register-based virtual machine with 64-bit registers.
//!
//! - [`isa`]: the instruction set (opcodes, operands, registers, instructions
//!   and their binary form);
//! - [`loader`]: the reader of the W8 Bytecode (`.wb`) format;
//! - [`vm`]: the machine itself (memory, register file, interpreter and the
//!   x64 code generator of the JIT);
//! - [`w8`]: loading bytecode and setting up the machine that runs it.
pub mod bytes;
pub mod error;
pub mod isa;
pub mod loader;
pub mod text;
pub mod vm;
pub mod w8;

use vstd::prelude::*;

verus! {

/// The version of W8 that this library implements; `.wb` files carry the
/// version they were compiled with.
pub const W8_VERSION: &'static str = "0.1.0";

} // verus!
