//! Errors of the binary instruction form.
use vstd::prelude::*;

use crate::text::push_decimal;

verus! {

/// What went wrong while decoding an instruction.
#[derive(Debug)]
pub enum ISAErrorKind {
    /// The data ended before the instruction did.
    UnexpectedEndOfData { expected: usize, found: usize },
    /// The operand count byte is greater than 3.
    InvalidOperandCount { count: u8 },
    /// A register operand names a register outside 0-254.
    InvalidRegister { register: u8 },
    /// An operand tag that is neither `0x00` (register) nor `0x01` (immediate).
    UnknownOperandTag { byte: u8 },
    /// An opcode that W8 does not know (its text or its byte, in decimal).
    UnknownOperationCode(String),
}

/// An error of the binary instruction form.
#[derive(Debug)]
pub struct ISAError {
    pub kind: ISAErrorKind,
}

/// The mathematical view of an [`ISAErrorKind`]: the text of an unknown
/// opcode is seen as its characters.
pub enum ISAErrorView {
    UnexpectedEndOfData { expected: usize, found: usize },
    InvalidOperandCount { count: u8 },
    InvalidRegister { register: u8 },
    UnknownOperandTag { byte: u8 },
    UnknownOperationCode(Seq<char>),
}

impl View for ISAErrorKind {
    type V = ISAErrorView;

    open spec fn view(&self) -> ISAErrorView {
        match self {
            ISAErrorKind::UnexpectedEndOfData { expected, found } => ISAErrorView::UnexpectedEndOfData {
                expected: *expected,
                found: *found,
            },
            ISAErrorKind::InvalidOperandCount { count } => ISAErrorView::InvalidOperandCount {
                count: *count,
            },
            ISAErrorKind::InvalidRegister { register } => ISAErrorView::InvalidRegister {
                register: *register,
            },
            ISAErrorKind::UnknownOperandTag { byte } => ISAErrorView::UnknownOperandTag {
                byte: *byte,
            },
            ISAErrorKind::UnknownOperationCode(s) => ISAErrorView::UnknownOperationCode(s@),
        }
    }
}

/// The message that describes an error of the binary instruction form.
pub open spec fn isa_message(e: ISAErrorView) -> Seq<char> {
    match e {
        ISAErrorView::UnexpectedEndOfData { expected, found } => "unexpected end of data: expected "@
            + crate::text::decimal(expected as nat) + " bytes, but found "@ + crate::text::decimal(
            found as nat,
        ),
        ISAErrorView::InvalidOperandCount { count } => "invalid operand count: "@ + crate::text::decimal(
            count as nat,
        ),
        ISAErrorView::InvalidRegister { register } => "invalid register number "@
            + crate::text::decimal(register as nat)
            + ": the register number must be in the range 0-254"@,
        ISAErrorView::UnknownOperandTag { byte } => "unknown operand tag: "@ + crate::text::decimal(
            byte as nat,
        ),
        ISAErrorView::UnknownOperationCode(t) => "unknown operation code: "@ + t,
    }
}

impl ISAError {
    pub fn new(kind: ISAErrorKind) -> (r: Self)
        ensures
            r.kind == kind,
    {
        Self { kind }
    }

    /// The message that describes this error.
    pub fn message(&self) -> (r: String)
        ensures
            r@ == isa_message(self.kind@),
    {
        match &self.kind {
            ISAErrorKind::UnexpectedEndOfData { expected, found } => {
                let mut s = String::from_str("unexpected end of data: expected ");
                push_decimal(&mut s, *expected as u64);
                s.append(" bytes, but found ");
                push_decimal(&mut s, *found as u64);
                s
            },
            ISAErrorKind::InvalidOperandCount { count } => {
                let mut s = String::from_str("invalid operand count: ");
                push_decimal(&mut s, *count as u64);
                s
            },
            ISAErrorKind::InvalidRegister { register } => {
                let mut s = String::from_str("invalid register number ");
                push_decimal(&mut s, *register as u64);
                s.append(": the register number must be in the range 0-254");
                s
            },
            ISAErrorKind::UnknownOperandTag { byte } => {
                let mut s = String::from_str("unknown operand tag: ");
                push_decimal(&mut s, *byte as u64);
                s
            },
            ISAErrorKind::UnknownOperationCode(t) => {
                let s = String::from_str("unknown operation code: ");
                s.concat(t.as_str())
            },
        }
    }
}

} // verus!
