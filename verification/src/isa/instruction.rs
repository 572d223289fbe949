//! # W8 instructions
//!
//! An instruction is one opcode and from zero to three operands. Its binary
//! form is the opcode byte, the operand count byte, then each operand: the
//! tag `0x00` and the register byte, or the tag `0x01` and the eight
//! little-endian bytes of the immediate.
use vstd::prelude::*;

use crate::bytes::read_u64;
use crate::isa::err::{ISAError, ISAErrorKind, ISAErrorView};
use crate::isa::opcode::OperationCode;
use crate::isa::operand::{Operand, OperandKind};
use crate::isa::register::Register;
use crate::vm::err::{VMError, VMErrorKind};

verus! {

/// One W8 instruction.
#[derive(Debug, Clone, Copy, PartialEq, Eq, Structural)]
pub struct Instruction {
    pub opcode: OperationCode,
    pub operand1: Option<Operand>,
    pub operand2: Option<Operand>,
    pub operand3: Option<Operand>,
}

/// `1` for a present operand, `0` for an absent one.
pub open spec fn present(o: Option<Operand>) -> nat {
    if o is Some { 1 } else { 0 }
}

/// The error of an instruction that has `got` operands where `expected`
/// are required.
pub open spec fn wrong_operand_count(expected: u8, got: nat) -> VMError {
    VMError { kind: VMErrorKind::IncorrectNumberOfOperands { expected, got: got as u8 } }
}

/// The text of an instruction: the name of its opcode, then its operands
/// separated by commas.
pub open spec fn instruction_text(i: Instruction) -> Seq<char> {
    let head = crate::isa::opcode::name(i.opcode);
    match (i.operand1, i.operand2, i.operand3) {
        (Some(a), Some(b), Some(c)) => head + " "@ + crate::isa::operand::operand_text(a.kind) + ", "@
            + crate::isa::operand::operand_text(b.kind) + ", "@ + crate::isa::operand::operand_text(
            c.kind,
        ),
        (Some(a), Some(b), None) => head + " "@ + crate::isa::operand::operand_text(a.kind) + ", "@
            + crate::isa::operand::operand_text(b.kind),
        (Some(a), None, None) => head + " "@ + crate::isa::operand::operand_text(a.kind),
        _ => head,
    }
}

impl Instruction {
    /// The number of present operands.
    pub open spec fn count(self) -> nat {
        present(self.operand1) + present(self.operand2) + present(self.operand3)
    }

    /// The present operands, in order.
    pub open spec fn operands(self) -> Seq<Operand> {
        let s1 = if self.operand1 is Some { seq![self.operand1.unwrap()] } else { seq![] };
        let s2 = if self.operand2 is Some { seq![self.operand2.unwrap()] } else { seq![] };
        let s3 = if self.operand3 is Some { seq![self.operand3.unwrap()] } else { seq![] };
        s1 + s2 + s3
    }

    /// The instruction with the given opcode whose operands are the first
    /// (at most three) elements of `ops`.
    pub open spec fn with_operands(opcode: OperationCode, ops: Seq<Operand>) -> Instruction {
        Instruction {
            opcode,
            operand1: if ops.len() > 0 { Some(ops[0]) } else { None },
            operand2: if ops.len() > 1 { Some(ops[1]) } else { None },
            operand3: if ops.len() > 2 { Some(ops[2]) } else { None },
        }
    }

    /// The present operands occupy the first slots, and every register
    /// operand names one of the 255 registers: the form that decoding
    /// produces.
    pub open spec fn well_formed(self) -> bool {
        &&& (self.operand2 is Some ==> self.operand1 is Some)
        &&& (self.operand3 is Some ==> self.operand2 is Some)
        &&& forall|k: int|
            0 <= k < self.operands().len() ==> ((#[trigger] self.operands()[k]).kind matches OperandKind::Register(r)
                ==> r.is_valid())
    }

    /// The text of the instruction, e.g. `MOVE R0, 42`. The present
    /// operands occupy the first slots.
    pub fn to_string(&self) -> (r: String)
        requires
            self.operand2 is Some ==> self.operand1 is Some,
            self.operand3 is Some ==> self.operand2 is Some,
        ensures
            r@ == instruction_text(*self),
    {
        let mut s = String::from_str(self.opcode.name());
        if let Some(a) = self.operand1 {
            s.append(" ");
            let t = a.to_string();
            s.append(t.as_str());
        }
        if let Some(b) = self.operand2 {
            s.append(", ");
            let t = b.to_string();
            s.append(t.as_str());
        }
        if let Some(c) = self.operand3 {
            s.append(", ");
            let t = c.to_string();
            s.append(t.as_str());
        }
        s
    }

    /// The number of present operands.
    pub fn operand_count(&self) -> (r: usize)
        ensures
            r == self.count(),
    {
        let mut n: usize = 0;
        if self.operand1.is_some() {
            n = n + 1;
        }
        if self.operand2.is_some() {
            n = n + 1;
        }
        if self.operand3.is_some() {
            n = n + 1;
        }
        n
    }

    /// The single operand; an `IncorrectNumberOfOperands` error unless there
    /// is exactly one.
    pub fn expect1(&self) -> (r: Result<Operand, VMError>)
        requires
            self.count() == 1 ==> self.operand1 is Some,
        ensures
            self.count() == 1 ==> r == Ok::<Operand, VMError>(self.operand1.unwrap()),
            self.count() != 1 ==> r == Err::<Operand, VMError>(wrong_operand_count(1, self.count())),
    {
        let count = self.operand_count();
        if count != 1 {
            return Err(
                VMError::new(
                    VMErrorKind::IncorrectNumberOfOperands { expected: 1, got: count as u8 },
                ),
            );
        }
        Ok(self.operand1.unwrap())
    }

    /// The two operands; an `IncorrectNumberOfOperands` error unless there
    /// are exactly two.
    pub fn expect2(&self) -> (r: Result<(Operand, Operand), VMError>)
        requires
            self.count() == 2 ==> self.operand1 is Some && self.operand2 is Some,
        ensures
            self.count() == 2 ==> r == Ok::<(Operand, Operand), VMError>(
                (self.operand1.unwrap(), self.operand2.unwrap()),
            ),
            self.count() != 2 ==> r == Err::<(Operand, Operand), VMError>(
                wrong_operand_count(2, self.count()),
            ),
    {
        let count = self.operand_count();
        if count != 2 {
            return Err(
                VMError::new(
                    VMErrorKind::IncorrectNumberOfOperands { expected: 2, got: count as u8 },
                ),
            );
        }
        Ok((self.operand1.unwrap(), self.operand2.unwrap()))
    }

    /// The three operands; an `IncorrectNumberOfOperands` error unless there
    /// are exactly three.
    pub fn expect3(&self) -> (r: Result<(Operand, Operand, Operand), VMError>)
        ensures
            self.count() == 3 ==> r == Ok::<(Operand, Operand, Operand), VMError>(
                (self.operand1.unwrap(), self.operand2.unwrap(), self.operand3.unwrap()),
            ),
            self.count() != 3 ==> r == Err::<(Operand, Operand, Operand), VMError>(
                wrong_operand_count(3, self.count()),
            ),
    {
        let count = self.operand_count();
        if count != 3 {
            return Err(
                VMError::new(
                    VMErrorKind::IncorrectNumberOfOperands { expected: 3, got: count as u8 },
                ),
            );
        }
        Ok((self.operand1.unwrap(), self.operand2.unwrap(), self.operand3.unwrap()))
    }

    /// Decodes one instruction from the start of `value` (bytes after the
    /// instruction are ignored).
    pub fn try_from(value: Vec<u8>) -> (r: Result<Instruction, ISAError>)
        requires
            value@.len() <= isize::MAX,
        ensures
            decode_matches(r, decode_instruction(value@)),
    {
        Self::decode(value.as_slice())
    }

    /// Decodes one instruction from the start of `value` (bytes after the
    /// instruction are ignored).
    pub fn decode(value: &[u8]) -> (r: Result<Instruction, ISAError>)
        requires
            value@.len() <= isize::MAX,
        ensures
            decode_matches(r, decode_instruction(value@)),
    {
        let len = value.len();
        if len < 2 {
            return Err(
                ISAError::new(ISAErrorKind::UnexpectedEndOfData { expected: 2, found: len }),
            );
        }
        let opcode = match OperationCode::try_from(value[0]) {
            Ok(op) => op,
            Err(e) => return Err(e),
        };
        let operand_count = value[1];
        if operand_count > 3 {
            return Err(
                ISAError::new(ISAErrorKind::InvalidOperandCount { count: operand_count }),
            );
        }
        let mut offset: usize = 2;
        let mut operands: [Option<Operand>; 3] = [None, None, None];
        let mut i: u8 = 0;
        let ghost mut ops: Seq<Operand> = seq![];
        while i < operand_count
            invariant
                len == value@.len(),
                len <= isize::MAX,
                len >= 2,
                value@[1] == operand_count,
                value@[0] <= 52,
                opcode == crate::isa::opcode::opcode_of_byte(value@[0]).unwrap(),
                i <= operand_count <= 3,
                decode_operands(value@, i as nat) == Ok::<(Seq<Operand>, int), ISAErrorView>(
                    (ops, offset as int),
                ),
                2 <= offset <= len,
                ops.len() == i,
                forall|k: int| 0 <= k < i ==> operands@[k] == Some(#[trigger] ops[k]),
                forall|k: int| i <= k < 3 ==> operands@[k] is None,
            decreases operand_count - i,
        {
            match decode_operand_at(value, offset) {
                Ok((operand, next)) => {
                    operands[i as usize] = Some(operand);
                    proof {
                        ops = ops.push(operand);
                    }
                    offset = next;
                    i = i + 1;
                },
                Err(e) => {
                    proof {
                        let ghost n1 = (i + 1) as nat;
                        assert((n1 - 1) as nat == i as nat);
                        assert(decode_operands(value@, n1) matches Err(f) && e.kind@ == f);
                        lemma_decode_operands_error_stays(value@, (i + 1) as nat, operand_count as nat);
                        assert(value@[1] == operand_count);
                        assert(value@[0] <= 52);
                        assert(decode_operands(value@, value@[1] as nat) matches Err(f) && e.kind@ == f);
                    }
                    return Err(e);
                },
            }
        }
        let r = Instruction {
            opcode,
            operand1: operands[0],
            operand2: operands[1],
            operand3: operands[2],
        };
        proof {
            assert(r == Instruction::with_operands(opcode, ops));
        }
        Ok(r)
    }
}

/// Whether an executable decoding result agrees with the specified one.
pub open spec fn decode_matches(
    r: Result<Instruction, ISAError>,
    s: Result<Instruction, ISAErrorView>,
) -> bool {
    match (r, s) {
        (Ok(a), Ok(b)) => a == b,
        (Err(e), Err(f)) => e.kind@ == f,
        _ => false,
    }
}

/// Decodes the operand that starts at `offset`: its value and the offset
/// after it.
pub open spec fn decode_operand(s: Seq<u8>, offset: int) -> Result<(Operand, int), ISAErrorView> {
    if offset >= s.len() {
        Err(ISAErrorView::UnexpectedEndOfData { expected: (offset + 1) as usize, found: s.len() as usize })
    } else {
        let tag = s[offset];
        let off = offset + 1;
        if tag == 0 {
            if off >= s.len() {
                Err(ISAErrorView::UnexpectedEndOfData { expected: (off + 1) as usize, found: s.len() as usize })
            } else if s[off] > 254 {
                Err(ISAErrorView::InvalidRegister { register: s[off] })
            } else {
                Ok((Operand { kind: OperandKind::Register(Register(s[off])) }, off + 1))
            }
        } else if tag == 1 {
            if off + 8 > s.len() {
                Err(ISAErrorView::UnexpectedEndOfData { expected: (off + 8) as usize, found: s.len() as usize })
            } else {
                Ok((Operand { kind: OperandKind::Immediate(crate::bytes::le_u64(s, off)) }, off + 8))
            }
        } else {
            Err(ISAErrorView::UnknownOperandTag { byte: tag })
        }
    }
}

/// Decodes the first `n` operands of the instruction at the start of `s`:
/// the operands and the offset after the last one.
pub open spec fn decode_operands(s: Seq<u8>, n: nat) -> Result<(Seq<Operand>, int), ISAErrorView>
    decreases n,
{
    if n == 0 {
        Ok((seq![], 2))
    } else {
        match decode_operands(s, (n - 1) as nat) {
            Err(e) => Err(e),
            Ok((ops, off)) => match decode_operand(s, off) {
                Err(e) => Err(e),
                Ok((o, next)) => Ok((ops.push(o), next)),
            },
        }
    }
}

/// Once decoding the operands fails, decoding more of them fails the same
/// way.
pub proof fn lemma_decode_operands_error_stays(s: Seq<u8>, m: nat, n: nat)
    requires
        m <= n,
        decode_operands(s, m) is Err,
    ensures
        decode_operands(s, n) == decode_operands(s, m),
    decreases n,
{
    if n > m {
        lemma_decode_operands_error_stays(s, m, (n - 1) as nat);
    }
}

/// The instruction at the start of `s`, or why it cannot be decoded.
pub open spec fn decode_instruction(s: Seq<u8>) -> Result<Instruction, ISAErrorView> {
    if s.len() < 2 {
        Err(ISAErrorView::UnexpectedEndOfData { expected: 2, found: s.len() as usize })
    } else if s[0] > 52 {
        Err(ISAErrorView::UnknownOperationCode(crate::text::decimal(s[0] as nat)))
    } else if s[1] > 3 {
        Err(ISAErrorView::InvalidOperandCount { count: s[1] })
    } else {
        match decode_operands(s, s[1] as nat) {
            Err(e) => Err(e),
            Ok((ops, _)) => Ok(
                Instruction::with_operands(crate::isa::opcode::opcode_of_byte(s[0]).unwrap(), ops),
            ),
        }
    }
}

/// Decodes the operand that starts at `offset`.
fn decode_operand_at(value: &[u8], offset: usize) -> (r: Result<(Operand, usize), ISAError>)
    requires
        offset <= value@.len(),
        value@.len() <= isize::MAX,
    ensures
        match (r, decode_operand(value@, offset as int)) {
            (Ok((o, n)), Ok((p, m))) => o == p && n == m && n <= value@.len(),
            (Err(e), Err(f)) => e.kind@ == f,
            _ => false,
        },
{
    let len = value.len();
    if offset >= len {
        return Err(
            ISAError::new(ISAErrorKind::UnexpectedEndOfData { expected: offset + 1, found: len }),
        );
    }
    let tag = value[offset];
    let offset = offset + 1;
    if tag == 0x00 {
        if offset >= len {
            return Err(
                ISAError::new(
                    ISAErrorKind::UnexpectedEndOfData { expected: offset + 1, found: len },
                ),
            );
        }
        let reg = value[offset];
        match Register::new(reg) {
            Some(register) => Ok((Operand { kind: OperandKind::Register(register) }, offset + 1)),
            None => Err(ISAError::new(ISAErrorKind::InvalidRegister { register: reg })),
        }
    } else if tag == 0x01 {
        if len - offset < 8 {
            return Err(
                ISAError::new(
                    ISAErrorKind::UnexpectedEndOfData { expected: offset + 8, found: len },
                ),
            );
        }
        let imm = read_u64(value, offset);
        Ok((Operand { kind: OperandKind::Immediate(imm) }, offset + 8))
    } else {
        Err(ISAError::new(ISAErrorKind::UnknownOperandTag { byte: tag }))
    }
}

// ====== The binary form, written ======

/// The binary form of an operand: the tag `0x00` and the register byte, or
/// the tag `0x01` and the eight little-endian bytes of the immediate.
pub open spec fn operand_bytes(o: Operand) -> Seq<u8> {
    match o.kind {
        OperandKind::Register(r) => seq![0u8, r.0],
        OperandKind::Immediate(v) => seq![1u8] + crate::bytes::u64_le_bytes(v),
    }
}

/// The binary form of operands, one after another.
pub open spec fn operands_bytes(ops: Seq<Operand>) -> Seq<u8>
    decreases ops.len(),
{
    if ops.len() == 0 {
        seq![]
    } else {
        operands_bytes(ops.drop_last()) + operand_bytes(ops.last())
    }
}

/// The binary form of an instruction: the opcode byte, the operand count,
/// then the operands.
pub open spec fn instruction_bytes(i: Instruction) -> Seq<u8> {
    seq![crate::isa::opcode::opcode_byte(i.opcode), i.operands().len() as u8] + operands_bytes(
        i.operands(),
    )
}

/// The binary form of operands that follow each other is the forms of each
/// part, one after the other.
pub proof fn lemma_operands_bytes_split(a: Seq<Operand>, b: Seq<Operand>)
    ensures
        operands_bytes(a + b) == operands_bytes(a) + operands_bytes(b),
    decreases b.len(),
{
    if b.len() == 0 {
        assert(a + b =~= a);
        assert(operands_bytes(a) + operands_bytes(b) =~= operands_bytes(a));
    } else {
        lemma_operands_bytes_split(a, b.drop_last());
        assert((a + b).drop_last() =~= a + b.drop_last());
        assert((a + b).last() == b.last());
        assert(operands_bytes(a + b) =~= operands_bytes(a) + operands_bytes(b));
    }
}

/// Decoding the operand whose binary form lies at `offset` gives it back.
proof fn lemma_decode_written_operand(s: Seq<u8>, offset: int, o: Operand)
    requires
        0 <= offset,
        offset + operand_bytes(o).len() <= s.len(),
        s.subrange(offset, offset + operand_bytes(o).len()) == operand_bytes(o),
        o.kind matches OperandKind::Register(r) ==> r.is_valid(),
    ensures
        decode_operand(s, offset) == Ok::<(Operand, int), ISAErrorView>(
            (o, offset + operand_bytes(o).len()),
        ),
{
    let b = operand_bytes(o);
    assert(s[offset] == b[0]);
    match o.kind {
        OperandKind::Register(r) => {
            assert(s[offset + 1] == b[1]);
        },
        OperandKind::Immediate(v) => {
            crate::bytes::lemma_u64_roundtrip(v);
            assert(s.subrange(offset + 1, offset + 9) =~= b.subrange(1, 9));
            assert(b.subrange(1, 9) =~= crate::bytes::u64_le_bytes(v));
            assert(crate::bytes::u64_le_bytes(v).subrange(0, 8) =~= crate::bytes::u64_le_bytes(v));
            crate::bytes::lemma_le_subrange(s, offset + 1, crate::bytes::u64_le_bytes(v), 0, 8);
        },
    }
}

/// Where the binary form of operand `j` of an instruction lies: after the
/// header and the forms of the operands before it.
pub proof fn lemma_written_operand_at(i: Instruction, j: int)
    requires
        0 <= j < i.operands().len(),
    ensures
        ({
            let ops = i.operands();
            let s = instruction_bytes(i);
            let off: int = 2 + operands_bytes(ops.take(j)).len() as int;
            &&& off + operand_bytes(ops[j]).len() <= s.len()
            &&& s.subrange(off, off + operand_bytes(ops[j]).len()) == operand_bytes(ops[j])
            &&& operands_bytes(ops.take(j + 1)) == operands_bytes(ops.take(j)) + operand_bytes(ops[j])
        }),
{
    let ops = i.operands();
    let before = ops.take(j);
    let o = ops[j];
    assert(ops.take(j + 1).drop_last() =~= before);
    assert(ops.take(j + 1).last() == o);
    lemma_operands_bytes_split(ops.take(j + 1), ops.skip(j + 1));
    assert(ops.take(j + 1) + ops.skip(j + 1) =~= ops);
    let head = seq![crate::isa::opcode::opcode_byte(i.opcode), ops.len() as u8];
    let s = instruction_bytes(i);
    let tail = operands_bytes(ops.skip(j + 1));
    assert(s =~= head + operands_bytes(before) + operand_bytes(o) + tail);
    let off: int = 2 + operands_bytes(before).len() as int;
    assert(s.subrange(off, off + operand_bytes(o).len()) =~= operand_bytes(o));
}

/// Decoding the first `k` operands of a written instruction gives them
/// back, with the offset after them.
proof fn lemma_decode_written_operands(i: Instruction, k: nat)
    requires
        i.well_formed(),
        k <= i.operands().len(),
    ensures
        decode_operands(instruction_bytes(i), k) == Ok::<(Seq<Operand>, int), ISAErrorView>(
            (i.operands().take(k as int), 2 + operands_bytes(i.operands().take(k as int)).len() as int),
        ),
    decreases k,
{
    let ops = i.operands();
    let s = instruction_bytes(i);
    if k == 0 {
        assert(ops.take(0) =~= seq![]);
    } else {
        let j = (k - 1) as nat;
        lemma_decode_written_operands(i, j);
        let o = ops[j as int];
        lemma_written_operand_at(i, j as int);
        assert(o.kind matches OperandKind::Register(r) ==> r.is_valid());
        lemma_decode_written_operand(s, 2 + operands_bytes(ops.take(j as int)).len() as int, o);
        assert(ops.take(j as int).push(o) =~= ops.take(k as int));
        assert(((j + 1) - 1) as nat == j);
    }
}

/// An instruction whose operands occupy the first slots and name existing
/// registers is read back from its binary form.
pub proof fn lemma_decode_written_instruction(i: Instruction)
    requires
        i.well_formed(),
    ensures
        decode_instruction(instruction_bytes(i)) == Ok::<Instruction, ISAErrorView>(i),
{
    let ops = i.operands();
    crate::isa::opcode::lemma_opcode_byte(i.opcode);
    lemma_decode_written_operands(i, ops.len());
    assert(ops.take(ops.len() as int) =~= ops);
    assert(Instruction::with_operands(i.opcode, ops) == i);
}

} // verus!
