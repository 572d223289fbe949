//! # The jump table
//!
//! The table maps `opcode * 8 + operand kinds` to the handler family of the
//! instruction, or to nothing when the opcode does not accept that
//! signature (destinations are always registers).
use vstd::prelude::*;

use crate::isa::opcode::OperationCode;
use crate::vm::interpreter::TABLE_LEN;
use crate::vm::semantics::Shape;

verus! {

/// The entry of the jump table for an opcode and operand kinds.
pub open spec fn table_entry(op: OperationCode, k: u64) -> Option<Shape> {
    if crate::vm::semantics::valid_signature(op, k) {
        Some(crate::vm::semantics::shape(op))
    } else {
        None
    }
}

/// The entry at index `j` of the jump table.
pub open spec fn jump_table_at(j: int) -> Option<Shape> {
    table_entry(crate::isa::opcode::opcode_of_byte((j / 8) as u8).unwrap(), (j % 8) as u64)
}

/// The family of an opcode.
pub fn shape_of(op: OperationCode) -> (r: Shape)
    ensures
        r == crate::vm::semantics::shape(op),
{
    match op {
        OperationCode::NOP => Shape::Nop,
        OperationCode::MOVE => Shape::Move,
        OperationCode::LOAD8 | OperationCode::LOAD16 | OperationCode::LOAD32
        | OperationCode::LOAD64 => Shape::Load,
        OperationCode::STORE8 | OperationCode::STORE16 | OperationCode::STORE32
        | OperationCode::STORE64 => Shape::Store,
        OperationCode::SDIV | OperationCode::UDIV | OperationCode::SREM
        | OperationCode::UREM => Shape::Division,
        OperationCode::INEG | OperationCode::NOT => Shape::IntUnary,
        OperationCode::FADD | OperationCode::FSUB | OperationCode::FMUL | OperationCode::FDIV
        | OperationCode::FREM | OperationCode::FEQ | OperationCode::FNE | OperationCode::FLT
        | OperationCode::FLE | OperationCode::FGT | OperationCode::FGE => Shape::FloatBinary,
        OperationCode::FNEG => Shape::FloatUnary,
        OperationCode::JMP => Shape::Jump,
        OperationCode::JZ | OperationCode::JNZ => Shape::JumpIf,
        OperationCode::CALL => Shape::Call,
        OperationCode::RET => Shape::Ret,
        OperationCode::VMCALL => Shape::VmCall,
        _ => Shape::IntBinary,
    }
}

/// The handler registered for an opcode and operand kinds: the opcode's
/// family for the signatures it accepts, nothing otherwise.
pub fn handler_for(op: OperationCode, kinds: u64) -> (r: Option<Shape>)
    ensures
        r == table_entry(op, kinds),
{
    let shape = shape_of(op);
    let valid = match shape {
        Shape::Nop | Shape::Ret => kinds == 0,
        Shape::Jump | Shape::Call => kinds < 2,
        Shape::Move | Shape::Load | Shape::IntUnary | Shape::FloatUnary => kinds == 1 || kinds == 3,
        Shape::Store | Shape::JumpIf => kinds < 4,
        Shape::VmCall => kinds < 8,
        _ => kinds < 8 && kinds % 2 == 1,
    };
    if valid {
        Some(shape)
    } else {
        None
    }
}

/// Builds the jump table: `index = opcode * 8 + operand kinds`.
pub fn build_jump_table() -> (r: Vec<Option<Shape>>)
    ensures
        r@.len() == TABLE_LEN,
        forall|j: int| 0 <= j < TABLE_LEN ==> #[trigger] r@[j] == jump_table_at(j),
{
    let mut table: Vec<Option<Shape>> = Vec::new();
    let mut j: usize = 0;
    while j < TABLE_LEN
        invariant
            j <= TABLE_LEN,
            table@.len() == j,
            forall|i: int| 0 <= i < j ==> #[trigger] table@[i] == jump_table_at(i),
        decreases TABLE_LEN - j,
    {
        let op = OperationCode::from_byte((j / 8) as u8).unwrap();
        table.push(handler_for(op, (j % 8) as u64));
        j = j + 1;
    }
    table
}

} // verus!
