//! # Running W8 bytecode
//!
//! [`W8`] runs bytecode on a machine of a chosen memory size: it loads a
//! `.wb` file into instructions and sets up the machine that runs them.
use vstd::prelude::*;

use crate::error::{WVMError, WVMErrorKind};
use crate::isa::instruction::Instruction;
use crate::loader::W8Loader;
use crate::vm::memory::WVMMemory;
use crate::vm::{ExecuteVariant, WVM};

verus! {

/// The default memory size of the machine, in bytes.
pub const DEFAULT_MEMORY_SIZE: usize = 65536;

/// Runs bytecode on machines of `memory_size` bytes of memory.
pub struct W8 {
    pub memory_size: usize,
}

impl W8 {
    /// With the default memory size.
    pub fn new() -> (r: Self)
        ensures
            r.memory_size == DEFAULT_MEMORY_SIZE,
    {
        Self { memory_size: DEFAULT_MEMORY_SIZE }
    }

    /// With the given memory size.
    pub fn with_memory_size(memory_size: usize) -> (r: Self)
        ensures
            r.memory_size == memory_size,
    {
        Self { memory_size }
    }

    /// The instructions of the bytes of a `.wb` file, or the loader's error
    /// (see [`W8Loader::transpile_checked`], whose `None` this passes on).
    pub fn load_bytes(&self, bytes: Vec<u8>) -> (r: Option<Result<Vec<Instruction>, WVMError>>)
        requires
            bytes@.len() <= isize::MAX,
        ensures
            match crate::loader::decode_program(bytes@) {
                None => r is None,
                Some(Ok(program)) => r matches Some(Ok(v)) && v@ == program,
                Some(Err(e)) => r matches Some(Err(x)) && x.instruction is None && !x.have_ansi && (
                x.kind matches WVMErrorKind::LoaderError(l) && l.kind@ == e),
            },
    {
        let loader = W8Loader::new(bytes);
        match loader.transpile_checked() {
            None => None,
            Some(Ok(instructions)) => Some(Ok(instructions)),
            Some(Err(e)) => Some(Err(WVMError::new(WVMErrorKind::LoaderError(e), None, false))),
        }
    }

    /// A machine that runs `instructions`, with zeroed memory of
    /// `memory_size` bytes and zeroed registers.
    pub fn machine(&self, instructions: Vec<Instruction>, executeby: ExecuteVariant) -> (r: WVM)
        ensures
            r.program@ == instructions@,
            r.memory@ == Seq::new(self.memory_size as nat, |i: int| 0u8),
            r.registers@ == Seq::new(255, |i: int| 0u64),
            r.call_stack@ == Seq::<usize>::empty(),
            r.executeby == executeby,
            r.exit_code is None,
    {
        WVM::from_program_and_memory(instructions, WVMMemory::new(self.memory_size), executeby)
    }
}

impl Default for W8 {
    fn default() -> (r: Self)
        ensures
            r.memory_size == DEFAULT_MEMORY_SIZE,
    {
        Self::new()
    }
}

} // verus!
