//! # Machine code generator
//!
//! The part of the JIT compiler that turns W8 instructions into native
//! machine code. It is tied to the W8 machine: the code it produces reads
//! and writes the registers of one machine in place, and reaches the rest
//! of the machine (the call stack, the host of `VMCALL`) through small
//! `extern "C"` functions of the host binary, the *trampolines*, whose
//! addresses it embeds.
//!
//! The generator itself only computes bytes: every address it embeds is
//! handed to it as a number.
pub mod x64;
pub mod x86;

use vstd::prelude::*;

verus! {

/// The calling convention of the platform, which decides how the generated
/// code passes arguments to the trampolines.
#[derive(Debug, Clone, Copy, PartialEq, Eq, Structural)]
pub enum CallingConvention {
    /// System V AMD64 (Unix-like systems).
    SystemV,
    /// Microsoft x64 (Windows).
    Windows,
}

/// Native machine code generator for the W8 JIT compiler.
///
/// Holds the addresses of the machine's state that the generated code
/// embeds: the first register of the register file, the call stack and the
/// machine itself. They must stay valid from construction until the
/// generated code has finished executing.
pub struct JITCodegen {
    /// The address of the first register of the register file.
    registers: u64,
    /// The address of the call stack (`CALL` pushes there, `RET` pops),
    /// handed to the trampolines.
    call_stack: u64,
    /// The address of the whole machine, handed to the `VMCALL` trampoline.
    wvm: u64,
}

/// The outgoing data of a `VMCALL` trampoline call.
///
/// Lives in ordinary writable memory (never in the executable mapping). The
/// trampolines fill it; the JIT reads it after execution.
#[derive(Debug, Clone, Copy, PartialEq, Eq, Structural)]
pub struct VmcallOut {
    /// The outcome code (one of the constants below).
    pub status: u64,
    /// The first detail of an error (the service number, or the offending
    /// address).
    pub info0: u64,
    /// The second detail of an error (the memory length for a bad address).
    pub info1: u64,
    /// The base address of the machine's memory buffer, refreshed after
    /// every host call (the host may replace the buffer).
    pub membase: u64,
}

impl VmcallOut {
    /// Execution finished without a failure.
    pub const OK: u64 = 0;
    /// `RET` executed with an empty call stack.
    pub const EMPTY_CALL_STACK: u64 = 1;
    /// The host of a `VMCALL` asked to stop the machine (the exit code is
    /// already stored).
    pub const VMCALL_EXIT: u64 = 2;
    /// `VMCALL` with no host (`info0` holds the service number).
    pub const UNKNOWN_SERVICE: u64 = 3;
    /// `VMCALL` whose block of arguments lies outside the memory (`info0`
    /// and `info1` hold the address and the memory length).
    pub const INVALID_ADDRESS: u64 = 4;
    /// A 64-bit division or remainder by zero (reported by the division
    /// helpers of 32-bit code).
    pub const DIVISION_BY_ZERO: u64 = 5;

    /// An empty block: status `OK`, no details, no memory base.
    pub fn new() -> (r: Self)
        ensures
            r == (VmcallOut { status: 0, info0: 0, info1: 0, membase: 0 }),
    {
        VmcallOut { status: 0, info0: 0, info1: 0, membase: 0 }
    }
}

impl Default for VmcallOut {
    fn default() -> (r: Self)
        ensures
            r == (VmcallOut { status: 0, info0: 0, info1: 0, membase: 0 }),
    {
        Self::new()
    }
}

/// The output of the generator.
pub struct GeneratedCode {
    /// The machine code, followed by the address table of dynamic jumps
    /// where the program has one.
    pub bytes: Vec<u8>,
    /// Whether execution can report an outcome into the status cell of the
    /// [`VmcallOut`] block (a `RET` on an empty call stack, or a `VMCALL`);
    /// the JIT then reads the cell after execution.
    pub has_status: bool,
}

/// The absolute addresses that the generator embeds into the machine code,
/// beyond the state of the machine it already knows, and the platform it
/// generates for.
pub struct GenContext {
    /// The base address of the JIT memory region that receives the code.
    pub code_base: u64,
    /// The address of the whole machine, passed to the `VMCALL` trampoline.
    pub wvm: u64,
    /// The address of the [`VmcallOut`] block.
    pub out: u64,
    /// The address of the memory-base cell (`VmcallOut::membase`) that
    /// `LOAD*` and `STORE*` read.
    pub membase_addr: u64,
    /// The address of the 8-byte scratch cell of the `RET` trampoline.
    pub scratch_addr: u64,
    /// The address of the trampoline that pushes onto the call stack.
    pub call_push: u64,
    /// The address of the trampoline that pops from the call stack.
    pub call_pop: u64,
    /// The address of the `VMCALL` trampoline.
    pub vmcall: u64,
    /// The calling convention of the trampolines.
    pub convention: CallingConvention,
    /// The address of the signed 64-bit division helper of 32-bit code.
    pub sdiv: u64,
    /// The address of the unsigned 64-bit division helper of 32-bit code.
    pub udiv: u64,
    /// The address of the signed 64-bit remainder helper of 32-bit code.
    pub srem: u64,
    /// The address of the unsigned 64-bit remainder helper of 32-bit code.
    pub urem: u64,
}

/// The address of register `index` when the register file starts at
/// `base`: each register occupies 8 bytes.
pub open spec fn register_cell(base: u64, index: int) -> u64 {
    vstd::wrapping::u64_specs::wrapping_add(base, (8 * index) as u64)
}

impl JITCodegen {
    /// The address of the first register.
    pub closed spec fn registers_base(&self) -> u64 {
        self.registers
    }

    /// The address of the call stack.
    pub closed spec fn stack_address(&self) -> u64 {
        self.call_stack
    }

    /// The address of the machine.
    pub closed spec fn machine_address(&self) -> u64 {
        self.wvm
    }

    /// The address of register `index`.
    pub open spec fn register_address(&self, index: int) -> u64 {
        register_cell(self.registers_base(), index)
    }

    /// A generator for the machine whose first register, call stack and
    /// whole state are at the given addresses.
    pub fn new(registers: u64, call_stack: u64, wvm: u64) -> (r: Self)
        ensures
            r.registers_base() == registers,
            r.stack_address() == call_stack,
            r.machine_address() == wvm,
    {
        Self { registers, call_stack, wvm }
    }

    /// The address of the first register.
    pub fn registers_address(&self) -> (r: u64)
        ensures
            r == self.registers_base(),
    {
        self.registers
    }

    /// The address of the machine, handed to the `VMCALL` trampoline.
    pub fn w8_address(&self) -> (r: u64)
        ensures
            r == self.machine_address(),
    {
        self.wvm
    }

    /// The address of the call stack, handed to the stack trampolines.
    pub fn call_stack_address(&self) -> (r: u64)
        ensures
            r == self.stack_address(),
    {
        self.call_stack
    }

    /// The address of register `index`: 8 bytes per register from the first.
    pub fn register(&self, index: usize) -> (r: u64)
        requires
            index < 255,
        ensures
            r == self.register_address(index as int),
    {
        let offset: u64 = 8 * (index as u64);
        self.registers.wrapping_add(offset)
    }
}

} // verus!
