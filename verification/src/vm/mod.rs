//! # W8 virtual machine
//!
//! - [`memory`]: the memory of the machine;
//! - [`register_file`]: the register bank;
//! - [`semantics`]: what instructions and programs do;
//! - [`interpreter`]: the interpreter, proved to follow [`semantics`];
//! - [`jit`]: the x64 code generator of the JIT compiler;
//! - [`err`]: errors of the machine.
pub mod err;
pub mod interpreter;
pub mod jit;
pub mod memory;
pub mod register_file;
pub mod semantics;

use vstd::prelude::*;

use crate::isa::instruction::Instruction;
use crate::vm::memory::WVMMemory;
use crate::vm::register_file::RegisterFile;
use crate::vm::semantics::MachineState;

verus! {

/// How the program is executed.
#[derive(Debug, Clone, Copy, PartialEq, Eq, Structural)]
pub enum ExecuteVariant {
    /// Compiled to x64 machine code and run natively.
    ByJIT,
    /// Run by the interpreter.
    ByInterpreter,
}

impl Default for ExecuteVariant {
    fn default() -> (r: Self)
        ensures
            r == ExecuteVariant::ByInterpreter,
    {
        ExecuteVariant::ByInterpreter
    }
}

/// What the host tells the machine to do after a `VMCALL`.
#[derive(Debug, Clone, Copy, PartialEq, Eq, Structural)]
pub enum VMCallDecision {
    /// Go on with the next instruction.
    Continue,
    /// Stop the program with this exit code.
    Exit { code: u64 },
}

/// # W8 virtual machine
///
/// The full state of the machine: the program, the memory, the registers,
/// the call stack, how the program is executed and the exit code of the
/// last run.
pub struct WVM {
    pub program: Vec<Instruction>,
    pub memory: WVMMemory,
    pub registers: RegisterFile,
    pub call_stack: Vec<usize>,
    pub executeby: ExecuteVariant,
    /// The code of the `VMCALL` `Exit` decision that ended the last run, if
    /// any.
    pub exit_code: Option<u64>,
}

impl WVM {
    /// The state that instructions read and change.
    pub open spec fn state(&self) -> MachineState {
        MachineState {
            registers: self.registers@,
            memory: self.memory@,
            call_stack: self.call_stack@,
            exit_code: self.exit_code,
        }
    }

    /// A machine with no program, `memory_size` bytes of zeroed memory and
    /// zeroed registers.
    pub fn new(memory_size: usize, executeby: ExecuteVariant) -> (r: Self)
        ensures
            r.program@ == Seq::<Instruction>::empty(),
            r.memory@ == Seq::new(memory_size as nat, |i: int| 0u8),
            r.registers@ == Seq::new(255, |i: int| 0u64),
            r.call_stack@ == Seq::<usize>::empty(),
            r.executeby == executeby,
            r.exit_code is None,
    {
        Self {
            program: Vec::new(),
            memory: WVMMemory::new(memory_size),
            registers: RegisterFile::new(),
            call_stack: Vec::new(),
            executeby,
            exit_code: None,
        }
    }

    /// A machine with the given program and memory and zeroed registers.
    pub fn from_program_and_memory(
        program: Vec<Instruction>,
        memory: WVMMemory,
        executeby: ExecuteVariant,
    ) -> (r: Self)
        ensures
            r.program == program,
            r.memory == memory,
            r.registers@ == Seq::new(255, |i: int| 0u64),
            r.call_stack@ == Seq::<usize>::empty(),
            r.executeby == executeby,
            r.exit_code is None,
    {
        Self {
            program,
            memory,
            registers: RegisterFile::new(),
            call_stack: Vec::new(),
            executeby,
            exit_code: None,
        }
    }
}

} // verus!
