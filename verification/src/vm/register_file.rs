//! # Register file
//!
//! The 255 registers of the machine, each holding a `u64`.
use vstd::prelude::*;

use crate::isa::register::Register;

verus! {

/// The number of registers.
pub const REGISTER_COUNT: usize = 255;

/// The register file of the machine.
pub struct RegisterFile {
    registers: [u64; 255],
}

impl View for RegisterFile {
    type V = Seq<u64>;

    closed spec fn view(&self) -> Seq<u64> {
        self.registers@
    }
}

impl RegisterFile {
    /// All 255 registers hold `0`.
    pub fn new() -> (r: Self)
        ensures
            r@ == Seq::new(255, |i: int| 0u64),
    {
        let registers = [0u64; 255];
        proof {
            assert(registers@ =~= Seq::new(255, |i: int| 0u64));
        }
        Self { registers }
    }

    /// The registers hold the given values.
    pub fn from_registers(registers: [u64; 255]) -> (r: Self)
        ensures
            r@ == registers@,
    {
        Self { registers }
    }

    /// There are always 255 registers.
    pub proof fn lemma_len(&self)
        ensures
            self@.len() == 255,
    {
    }

    /// The value of register `r`.
    pub fn get(&self, r: Register) -> (v: u64)
        requires
            r.is_valid(),
        ensures
            v == self@[r.0 as int],
    {
        self.registers[r.0 as usize]
    }

    /// Sets register `r` to `value`.
    pub fn set(&mut self, r: Register, value: u64)
        requires
            r.is_valid(),
        ensures
            final(self)@ == old(self)@.update(r.0 as int, value),
    {
        self.registers[r.0 as usize] = value;
    }

    /// The registers as an array, register `i` at index `i`.
    pub fn as_mut_array(&mut self) -> (r: &mut [u64; 255])
        ensures
            r@ == old(self)@,
            final(self)@ == final(r)@,
    {
        &mut self.registers
    }
}

impl Default for RegisterFile {
    fn default() -> (r: Self)
        ensures
            r@ == Seq::new(255, |i: int| 0u64),
    {
        Self::new()
    }
}

} // verus!
