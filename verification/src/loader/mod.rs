//! # Loader of the W8 Bytecode (`.wb`) format
//!
//! A `.wb` file is the magic `NVMBC`, the version it was compiled with (three
//! little-endian `u16`: major, minor, patch), then the instructions in their
//! binary form (see [`crate::isa::instruction`]).
pub mod err;
pub mod version;

use vstd::prelude::*;

use crate::isa::err::ISAErrorView;
use crate::isa::instruction::Instruction;
use crate::loader::err::{LoaderError, LoaderErrorKind, LoaderErrorView};
use crate::loader::version::version_parts;
use crate::text::push_decimal;
use crate::W8_VERSION;

verus! {

/// The loader of a `.wb` file held in memory.
pub struct W8Loader {
    pub src: Vec<u8>,
}

/// The magic that starts every `.wb` file.
pub open spec fn magic() -> Seq<u8> {
    seq![0x4E, 0x56, 0x4D, 0x42, 0x43]
}

/// How far the scan of one instruction got.
pub enum Scan {
    /// The instruction occupies this many bytes.
    Size(int),
    /// The instruction is malformed.
    Fail(LoaderErrorView),
    /// An operand would start past the end of the file: the remaining byte
    /// count of the error would be negative.
    Overrun,
}

/// Scans the tags of the first `k` operands of the instruction at `offset`:
/// the size of the opcode, the count and these operands.
pub open spec fn scan_operands(s: Seq<u8>, offset: int, k: nat) -> Scan
    decreases k,
{
    if k == 0 {
        Scan::Size(2)
    } else {
        match scan_operands(s, offset, (k - 1) as nat) {
            Scan::Size(size) => {
                let pos = offset + size;
                if pos > s.len() {
                    Scan::Overrun
                } else if pos == s.len() {
                    Scan::Fail(LoaderErrorView::UnexpectedEndOfFile { needed: 1, remaining: 0 })
                } else if s[pos] == 0 {
                    Scan::Size(size + 2)
                } else if s[pos] == 1 {
                    Scan::Size(size + 9)
                } else {
                    Scan::Fail(LoaderErrorView::UnknownOperandTag { byte: s[pos] })
                }
            },
            other => other,
        }
    }
}

/// Scans the instruction at `offset` (before `s.len()`): its size in bytes,
/// or why it is malformed.
pub open spec fn scan_instruction(s: Seq<u8>, offset: int) -> Scan {
    if offset + 2 > s.len() {
        Scan::Fail(
            LoaderErrorView::UnexpectedEndOfFile { needed: 2, remaining: (s.len() - offset) as usize },
        )
    } else if s[offset] > 52 || s[offset + 1] > 3 {
        Scan::Fail(LoaderErrorView::UnknownOpcode { byte: s[offset] })
    } else {
        match scan_operands(s, offset, s[offset + 1] as nat) {
            Scan::Size(size) => if offset + size > s.len() {
                Scan::Fail(
                    LoaderErrorView::UnexpectedEndOfFile {
                        needed: size as usize,
                        remaining: (s.len() - offset) as usize,
                    },
                )
            } else {
                Scan::Size(size)
            },
            other => other,
        }
    }
}

/// The reason given when the bytes of an instruction at `offset` do not
/// decode.
pub open spec fn parse_failure(offset: int, e: ISAErrorView) -> LoaderErrorView {
    LoaderErrorView::FileIsNotInW8BytecodeFormat {
        reason: "failed to parse instruction at offset "@ + crate::text::decimal(offset as nat) + ": "@
            + crate::isa::err::isa_message(e),
    }
}

/// Puts `prefix` before the instructions of a successful result.
pub open spec fn prefixed(
    prefix: Seq<Instruction>,
    r: Option<Result<Seq<Instruction>, LoaderErrorView>>,
) -> Option<Result<Seq<Instruction>, LoaderErrorView>> {
    match r {
        Some(Ok(rest)) => Some(Ok(prefix + rest)),
        other => other,
    }
}

/// The scanned size of an instruction is at least its two header bytes.
pub proof fn lemma_scan_operands_size(s: Seq<u8>, offset: int, k: nat)
    ensures
        scan_operands(s, offset, k) matches Scan::Size(size) ==> size >= 2,
    decreases k,
{
    if k > 0 {
        lemma_scan_operands_size(s, offset, (k - 1) as nat);
    }
}

/// The instructions from `offset` to the end of the file, or the first error;
/// `None` when the scan overruns the end of the file.
pub open spec fn decode_from(s: Seq<u8>, offset: int) -> Option<
    Result<Seq<Instruction>, LoaderErrorView>,
>
    decreases s.len() - offset,
{
    if offset >= s.len() {
        Some(Ok(seq![]))
    } else {
        match scan_instruction(s, offset) {
            Scan::Overrun => None,
            Scan::Fail(e) => Some(Err(e)),
            Scan::Size(size) => {
                proof {
                    lemma_scan_operands_size(s, offset, s[offset + 1] as nat);
                }
                match crate::isa::instruction::decode_instruction(s.subrange(offset, offset + size)) {
                    Err(e) => Some(Err(parse_failure(offset, e))),
                    Ok(instruction) => prefixed(seq![instruction], decode_from(s, offset + size)),
                }
            },
        }
    }
}

/// The version that a `.wb` file header (at least 11 bytes) carries.
pub open spec fn file_version(s: Seq<u8>) -> Seq<u16> {
    seq![crate::bytes::le_u16(s, 5), crate::bytes::le_u16(s, 7), crate::bytes::le_u16(s, 9)]
}

/// The version of this library, as numbers.
pub open spec fn current_version() -> Seq<u16> {
    seq![
        crate::loader::version::version_part(W8_VERSION@, 0),
        crate::loader::version::version_part(W8_VERSION@, 1),
        crate::loader::version::version_part(W8_VERSION@, 2),
    ]
}

/// The text `major.minor.patch` of a version.
pub open spec fn version_text(v: Seq<u16>) -> Seq<char> {
    crate::text::decimal(v[0] as nat) + "."@ + crate::text::decimal(v[1] as nat) + "."@
        + crate::text::decimal(v[2] as nat)
}

/// The program in a `.wb` file, or why the file is rejected; `None` when the
/// scan of an instruction overruns the end of the file.
pub open spec fn decode_program(s: Seq<u8>) -> Option<Result<Seq<Instruction>, LoaderErrorView>> {
    if s.len() < 11 {
        Some(
            Err(
                LoaderErrorView::FileIsNotInW8BytecodeFormat {
                    reason: "the file must be at least 11 bytes in size"@,
                },
            ),
        )
    } else if s.subrange(0, 5) != magic() {
        Some(
            Err(LoaderErrorView::FileIsNotInW8BytecodeFormat { reason: "incorrect magic section"@ }),
        )
    } else if file_version(s) != current_version() {
        Some(
            Err(
                LoaderErrorView::UnsupportedVersion {
                    file_version: version_text(file_version(s)),
                    vm_version: W8_VERSION@,
                },
            ),
        )
    } else {
        decode_from(s, 11)
    }
}

/// Whether an executable result agrees with a specified one.
pub open spec fn load_matches(
    r: Result<Vec<Instruction>, LoaderError>,
    s: Result<Seq<Instruction>, LoaderErrorView>,
) -> bool {
    match (r, s) {
        (Ok(a), Ok(b)) => a@ == b,
        (Err(e), Err(f)) => e.kind@ == f,
        _ => false,
    }
}

/// The current W8 version as numbers `[major, minor, patch]` (see
/// [`version_parts`]).
pub fn w8_version_parts() -> (r: [u16; 3])
    ensures
        r@ == current_version(),
{
    version_parts(W8_VERSION)
}

impl W8Loader {
    pub fn new(src: Vec<u8>) -> (r: Self)
        ensures
            r.src == src,
    {
        Self { src }
    }

    /// Reads the program of the `.wb` file.
    ///
    /// Fails, with the first problem met, when the file is shorter than the
    /// header, has another magic, was compiled with another version, or an
    /// instruction is malformed. The file must not declare an operand that
    /// starts past its end after one that already runs past it (see
    /// [`W8Loader::transpile_checked`]).
    pub fn transpile(&self) -> (r: Result<Vec<Instruction>, LoaderError>)
        requires
            self.src@.len() <= isize::MAX,
            decode_program(self.src@) is Some,
        ensures
            load_matches(r, decode_program(self.src@).unwrap()),
    {
        self.transpile_checked().unwrap()
    }

    /// Reads the program of the `.wb` file as [`W8Loader::transpile`] does;
    /// `None` when the operands of an instruction run past the end of the
    /// file and another operand follows them, where the size of the rest of
    /// the file cannot be computed.
    pub fn transpile_checked(&self) -> (r: Option<Result<Vec<Instruction>, LoaderError>>)
        requires
            self.src@.len() <= isize::MAX,
        ensures
            match decode_program(self.src@) {
                None => r is None,
                Some(d) => r matches Some(x) && load_matches(x, d),
            },
    {
        let src = self.src.as_slice();
        let len = src.len();
        if len < 11 {
            return Some(
                Err(
                    LoaderError::new(
                        LoaderErrorKind::FileIsNotInW8BytecodeFormat {
                            reason: String::from_str("the file must be at least 11 bytes in size"),
                        },
                    ),
                ),
            );
        }
        if !(src[0] == 0x4E && src[1] == 0x56 && src[2] == 0x4D && src[3] == 0x42 && src[4] == 0x43) {
            proof {
                if src@.subrange(0, 5) == magic() {
                    assert(src@.subrange(0, 5)[0] == src@[0]);
                    assert(src@.subrange(0, 5)[1] == src@[1]);
                    assert(src@.subrange(0, 5)[2] == src@[2]);
                    assert(src@.subrange(0, 5)[3] == src@[3]);
                    assert(src@.subrange(0, 5)[4] == src@[4]);
                }
            }
            return Some(
                Err(
                    LoaderError::new(
                        LoaderErrorKind::FileIsNotInW8BytecodeFormat {
                            reason: String::from_str("incorrect magic section"),
                        },
                    ),
                ),
            );
        }
        proof {
            assert(src@.subrange(0, 5) =~= magic());
        }
        let version: [u16; 3] = [
            crate::bytes::read_u16(src, 5),
            crate::bytes::read_u16(src, 7),
            crate::bytes::read_u16(src, 9),
        ];
        let current = w8_version_parts();
        if !(version[0] == current[0] && version[1] == current[1] && version[2] == current[2]) {
            let mut compiled = String::new();
            push_decimal(&mut compiled, version[0] as u64);
            compiled.append(".");
            push_decimal(&mut compiled, version[1] as u64);
            compiled.append(".");
            push_decimal(&mut compiled, version[2] as u64);
            proof {
                assert(version@ =~= file_version(src@));
                assert(file_version(src@) != current_version());
            }
            return Some(
                Err(
                    LoaderError::new(
                        LoaderErrorKind::UnsupportedVersion {
                            file_version: compiled,
                            vm_version: String::from_str(W8_VERSION),
                        },
                    ),
                ),
            );
        }
        proof {
            assert(version@ =~= file_version(src@));
        }
        let mut instructions: Vec<Instruction> = Vec::new();
        let mut offset: usize = 11;
        while offset < len
            invariant
                len == src@.len(),
                src@ == self.src@,
                len <= isize::MAX,
                11 <= offset <= len,
                decode_program(src@) == prefixed(instructions@, decode_from(src@, offset as int)),
            decreases len - offset,
        {
            let instr_size = match scan_at(src, offset) {
                None => {
                    return None;
                },
                Some(Ok(size)) => size,
                Some(Err(e)) => {
                    proof {
                        assert(decode_from(src@, offset as int) == Some(
                            Err::<Seq<Instruction>, LoaderErrorView>(e.kind@),
                        ));
                    }
                    return Some(Err(e));
                },
            };
            let end = offset + instr_size;
            let ghost before = instructions@;
            match Instruction::decode(slice_subrange(src, offset, end)) {
                Ok(instruction) => {
                    instructions.push(instruction);
                    proof {
                        assert(instructions@ == before + seq![instruction]);
                        lemma_prefixed_prefixed(before, seq![instruction], decode_from(src@, end as int));
                    }
                    offset = end;
                },
                Err(e) => {
                    let mut reason = String::from_str("failed to parse instruction at offset ");
                    push_decimal(&mut reason, offset as u64);
                    reason.append(": ");
                    let message = e.message();
                    reason.append(message.as_str());
                    proof {
                        let sub = src@.subrange(offset as int, end as int);
                        assert(crate::isa::instruction::decode_instruction(sub) matches Err(f) && e.kind@ == f);
                        assert(decode_from(src@, offset as int) == Some(
                            Err::<Seq<Instruction>, LoaderErrorView>(parse_failure(offset as int, e.kind@)),
                        ));
                    }
                    return Some(
                        Err(
                            LoaderError::new(LoaderErrorKind::FileIsNotInW8BytecodeFormat { reason }),
                        ),
                    );
                },
            }
        }
        proof {
            assert(instructions@ + seq![] =~= instructions@);
        }
        Some(Ok(instructions))
    }
}

proof fn lemma_prefixed_prefixed(
    a: Seq<Instruction>,
    b: Seq<Instruction>,
    r: Option<Result<Seq<Instruction>, LoaderErrorView>>,
)
    ensures
        prefixed(a, prefixed(b, r)) == prefixed(a + b, r),
{
    match r {
        Some(Ok(rest)) => {
            assert(a + (b + rest) =~= (a + b) + rest);
        },
        _ => {},
    }
}

/// Scans the instruction at `offset`: its size in bytes, or why it is
/// malformed.
fn scan_at(src: &[u8], offset: usize) -> (r: Option<Result<usize, LoaderError>>)
    requires
        src@.len() <= isize::MAX,
        offset < src@.len(),
    ensures
        match (r, scan_instruction(src@, offset as int)) {
            (Some(Ok(n)), Scan::Size(size)) => n == size && offset + n <= src@.len(),
            (Some(Err(e)), Scan::Fail(f)) => e.kind@ == f,
            (None, Scan::Overrun) => true,
            _ => false,
        },
{
    let len = src.len();
    if len - offset < 2 {
        return Some(
            Err(
                LoaderError::new(
                    LoaderErrorKind::UnexpectedEndOfFile { needed: 2, remaining: len - offset },
                ),
            ),
        );
    }
    let opcode_byte = src[offset];
    if opcode_byte > 52 {
        return Some(Err(LoaderError::new(LoaderErrorKind::UnknownOpcode { byte: opcode_byte })));
    }
    let operand_count = src[offset + 1];
    if operand_count > 3 {
        return Some(Err(LoaderError::new(LoaderErrorKind::UnknownOpcode { byte: opcode_byte })));
    }
    let mut instr_size: usize = 2;
    let mut j: u8 = 0;
    while j < operand_count
        invariant
            len == src@.len(),
            len <= isize::MAX,
            offset < len,
            offset + 2 <= len,
            src@[offset as int] <= 52,
            j <= operand_count <= 3,
            src@[offset + 1] == operand_count,
            scan_operands(src@, offset as int, j as nat) == Scan::Size(instr_size as int),
            offset + instr_size <= len,
            instr_size <= 2 + 9 * j,
        decreases operand_count - j,
    {
        let pos = offset + instr_size;
        proof {
            lemma_scan_operands_step(src@, offset as int, j as nat);
        }
        if pos >= len {
            proof {
                lemma_scan_error_stays(src@, offset as int, (j + 1) as nat, operand_count as nat);
            }
            return Some(
                Err(
                    LoaderError::new(
                        LoaderErrorKind::UnexpectedEndOfFile { needed: 1, remaining: len - pos },
                    ),
                ),
            );
        }
        let tag = src[pos];
        let op_size: usize = if tag == 0x00 {
            2
        } else if tag == 0x01 {
            9
        } else {
            proof {
                lemma_scan_error_stays(src@, offset as int, (j + 1) as nat, operand_count as nat);
            }
            return Some(Err(LoaderError::new(LoaderErrorKind::UnknownOperandTag { byte: tag })));
        };
        instr_size = instr_size + op_size;
        j = j + 1;
        if len - offset < instr_size {
            if j < operand_count {
                // The next operand would be read past the end of the file.
                proof {
                    lemma_scan_overrun(src@, offset as int, j as nat, operand_count as nat);
                }
                return None;
            }
            return Some(
                Err(
                    LoaderError::new(
                        LoaderErrorKind::UnexpectedEndOfFile { needed: instr_size, remaining: len - offset },
                    ),
                ),
            );
        }
    }
    Some(Ok(instr_size))
}

proof fn lemma_scan_operands_step(s: Seq<u8>, offset: int, j: nat)
    ensures
        scan_operands(s, offset, j + 1) == match scan_operands(s, offset, j) {
            Scan::Size(size) => {
                let pos = offset + size;
                if pos > s.len() {
                    Scan::Overrun
                } else if pos == s.len() {
                    Scan::Fail(LoaderErrorView::UnexpectedEndOfFile { needed: 1, remaining: 0 })
                } else if s[pos] == 0 {
                    Scan::Size(size + 2)
                } else if s[pos] == 1 {
                    Scan::Size(size + 9)
                } else {
                    Scan::Fail(LoaderErrorView::UnknownOperandTag { byte: s[pos] })
                }
            },
            other => other,
        },
{
    assert(((j + 1) - 1) as nat == j);
}

/// Once the scan of the operands fails, scanning more of them fails the same
/// way.
proof fn lemma_scan_error_stays(s: Seq<u8>, offset: int, m: nat, n: nat)
    requires
        m <= n,
        !(scan_operands(s, offset, m) is Size),
    ensures
        scan_operands(s, offset, n) == scan_operands(s, offset, m),
    decreases n,
{
    if n > m {
        lemma_scan_error_stays(s, offset, m, (n - 1) as nat);
    }
}

/// When the operands scanned so far end past the end of the file, scanning
/// one more overruns.
proof fn lemma_scan_overrun(s: Seq<u8>, offset: int, m: nat, n: nat)
    requires
        m < n,
        scan_operands(s, offset, m) matches Scan::Size(size) && offset + size > s.len(),
    ensures
        scan_operands(s, offset, n) is Overrun,
{
    assert(scan_operands(s, offset, m + 1) is Overrun);
    lemma_scan_error_stays(s, offset, m + 1, n);
}

/// `s[from..to]`.
fn slice_subrange(s: &[u8], from: usize, to: usize) -> (r: &[u8])
    requires
        from <= to <= s@.len(),
    ensures
        r@ == s@.subrange(from as int, to as int),
{
    vstd::slice::slice_subrange(s, from, to)
}

// ====== Files written in the format ======

/// The binary form of a program: its instructions one after another.
pub open spec fn program_bytes(p: Seq<Instruction>) -> Seq<u8>
    decreases p.len(),
{
    if p.len() == 0 {
        seq![]
    } else {
        program_bytes(p.drop_last()) + crate::isa::instruction::instruction_bytes(p.last())
    }
}

/// The header of a `.wb` file of this library's version: the magic, then
/// the three parts of the version, little-endian.
pub open spec fn header() -> Seq<u8> {
    let v = current_version();
    magic() + crate::bytes::u16_le_bytes(v[0]) + crate::bytes::u16_le_bytes(v[1])
        + crate::bytes::u16_le_bytes(v[2])
}

/// A `.wb` file of this library's version that holds the program `p`.
pub open spec fn program_file(p: Seq<Instruction>) -> Seq<u8> {
    header() + program_bytes(p)
}

/// The binary forms of programs that follow each other are the forms of
/// each part, one after the other.
proof fn lemma_program_bytes_split(a: Seq<Instruction>, b: Seq<Instruction>)
    ensures
        program_bytes(a + b) == program_bytes(a) + program_bytes(b),
    decreases b.len(),
{
    if b.len() == 0 {
        assert(a + b =~= a);
        assert(program_bytes(a) + program_bytes(b) =~= program_bytes(a));
    } else {
        lemma_program_bytes_split(a, b.drop_last());
        assert((a + b).drop_last() =~= a + b.drop_last());
        assert((a + b).last() == b.last());
        assert(program_bytes(a + b) =~= program_bytes(a) + program_bytes(b));
    }
}

/// The scan of the tags of a written instruction at `offset` measures its
/// operands.
proof fn lemma_scan_written_operands(s: Seq<u8>, offset: int, i: Instruction, k: nat)
    requires
        0 <= offset,
        offset + crate::isa::instruction::instruction_bytes(i).len() <= s.len(),
        s.subrange(offset, offset + crate::isa::instruction::instruction_bytes(i).len())
            == crate::isa::instruction::instruction_bytes(i),
        k <= i.operands().len(),
    ensures
        scan_operands(s, offset, k) == Scan::Size(
            2 + crate::isa::instruction::operands_bytes(i.operands().take(k as int)).len() as int,
        ),
    decreases k,
{
    let ops = i.operands();
    let b = crate::isa::instruction::instruction_bytes(i);
    if k == 0 {
        assert(ops.take(0) =~= seq![]);
    } else {
        let j = (k - 1) as nat;
        lemma_scan_written_operands(s, offset, i, j);
        crate::isa::instruction::lemma_written_operand_at(i, j as int);
        let off: int = 2 + crate::isa::instruction::operands_bytes(ops.take(j as int)).len() as int;
        let o = ops[j as int];
        let ob = crate::isa::instruction::operand_bytes(o);
        assert(off + ob.len() <= b.len());
        assert(b.subrange(off, off + ob.len())[0] == ob[0]);
        assert(s.subrange(offset, offset + b.len())[off] == b[off]);
        assert(s[offset + off] == ob[0]);
        assert(ob[0] == 0 ==> ob.len() == 2);
        assert(ob[0] != 0 ==> ob[0] == 1 && ob.len() == 9);
        assert(scan_operands(s, offset, j) == Scan::Size(off));
        assert(((j + 1) - 1) as nat == j);
        assert(scan_operands(s, offset, k) == Scan::Size(off + ob.len()));
    }
}

/// The scan of a written instruction at `offset` gives its size.
proof fn lemma_scan_written(s: Seq<u8>, offset: int, i: Instruction)
    requires
        0 <= offset,
        offset + crate::isa::instruction::instruction_bytes(i).len() <= s.len(),
        s.subrange(offset, offset + crate::isa::instruction::instruction_bytes(i).len())
            == crate::isa::instruction::instruction_bytes(i),
    ensures
        scan_instruction(s, offset) == Scan::Size(crate::isa::instruction::instruction_bytes(i).len() as int),
{
    let ops = i.operands();
    let b = crate::isa::instruction::instruction_bytes(i);
    crate::isa::opcode::lemma_opcode_byte(i.opcode);
    assert(s.subrange(offset, offset + b.len())[0] == b[0]);
    assert(s.subrange(offset, offset + b.len())[1] == b[1]);
    assert(ops.len() <= 3);
    lemma_scan_written_operands(s, offset, i, ops.len());
    assert(ops.take(ops.len() as int) =~= ops);
}

/// Reading the instructions of a written program from the start of
/// instruction `j` gives back the instructions from `j` on.
#[verifier::rlimit(40)]
proof fn lemma_decode_written_from(p: Seq<Instruction>, j: nat)
    requires
        forall|k: int| 0 <= k < p.len() ==> (#[trigger] p[k]).well_formed(),
        j <= p.len(),
    ensures
        decode_from(program_file(p), 11 + program_bytes(p.take(j as int)).len() as int) == Some(
            Ok::<Seq<Instruction>, LoaderErrorView>(p.skip(j as int)),
        ),
    decreases p.len() - j,
{
    let s = program_file(p);
    let offset: int = 11 + program_bytes(p.take(j as int)).len() as int;
    lemma_program_bytes_split(p.take(j as int), p.skip(j as int));
    assert(p.take(j as int) + p.skip(j as int) =~= p);
    assert(header().len() == 11);
    if j == p.len() {
        assert(p.skip(j as int) =~= seq![]);
        assert(offset == s.len());
    } else {
        let i = p[j as int];
        let b = crate::isa::instruction::instruction_bytes(i);
        let rest = p.skip(j as int + 1);
        assert(p.skip(j as int) =~= seq![i] + rest);
        lemma_program_bytes_split(seq![i], rest);
        assert(seq![i].drop_last() =~= Seq::<Instruction>::empty());
        assert(program_bytes(Seq::<Instruction>::empty()) =~= Seq::<u8>::empty());
        assert(seq![i].last() == i);
        assert(program_bytes(seq![i]) =~= b);
        assert(s =~= header() + program_bytes(p.take(j as int)) + b + program_bytes(rest));
        assert(s.subrange(offset, offset + b.len()) =~= b);
        lemma_scan_written(s, offset, i);
        crate::isa::instruction::lemma_decode_written_instruction(i);
        assert(p.take(j as int + 1) =~= p.take(j as int).push(i));
        assert(p.take(j as int + 1).drop_last() =~= p.take(j as int));
        lemma_decode_written_from(p, j + 1);
        assert(seq![i] + rest =~= p.skip(j as int));
    }
}

/// A `.wb` file of this library's version that holds a program whose
/// instructions have their operands in the first slots and name existing
/// registers loads back to that program.
pub proof fn lemma_load_written_program(p: Seq<Instruction>)
    requires
        forall|k: int| 0 <= k < p.len() ==> (#[trigger] p[k]).well_formed(),
    ensures
        decode_program(program_file(p)) == Some(Ok::<Seq<Instruction>, LoaderErrorView>(p)),
{
    let s = program_file(p);
    let v = current_version();
    assert(header().len() == 11);
    assert(s.subrange(0, 5) =~= magic());
    crate::bytes::lemma_u16_roundtrip(v[0]);
    crate::bytes::lemma_u16_roundtrip(v[1]);
    crate::bytes::lemma_u16_roundtrip(v[2]);
    assert(s.subrange(5, 7) =~= crate::bytes::u16_le_bytes(v[0]).subrange(0, 2));
    assert(s.subrange(7, 9) =~= crate::bytes::u16_le_bytes(v[1]).subrange(0, 2));
    assert(s.subrange(9, 11) =~= crate::bytes::u16_le_bytes(v[2]).subrange(0, 2));
    crate::bytes::lemma_le_subrange(s, 5, crate::bytes::u16_le_bytes(v[0]), 0, 2);
    crate::bytes::lemma_le_subrange(s, 7, crate::bytes::u16_le_bytes(v[1]), 0, 2);
    crate::bytes::lemma_le_subrange(s, 9, crate::bytes::u16_le_bytes(v[2]), 0, 2);
    assert(file_version(s) =~= current_version());
    lemma_decode_written_from(p, 0);
    assert(p.take(0) =~= seq![]);
    assert(p.skip(0) =~= p);
}

/// A file loads only if it starts with the magic `NVMBC` and then carries,
/// as three little-endian `u16`s, exactly this library's version: a file of
/// another major, minor or patch version is never loaded.
pub proof fn lemma_loaded_file_has_this_version(s: Seq<u8>)
    requires
        decode_program(s) matches Some(Ok(_)),
    ensures
        s.len() >= 11,
        s[0] == 0x4E && s[1] == 0x56 && s[2] == 0x4D && s[3] == 0x42 && s[4] == 0x43,
        s[5] + 256 * s[6] == crate::loader::version::version_part(W8_VERSION@, 0),
        s[7] + 256 * s[8] == crate::loader::version::version_part(W8_VERSION@, 1),
        s[9] + 256 * s[10] == crate::loader::version::version_part(W8_VERSION@, 2),
{
    assert(s.subrange(0, 5) == magic());
    assert(s.subrange(0, 5)[0] == s[0] && s.subrange(0, 5)[1] == s[1] && s.subrange(0, 5)[2] == s[2]
        && s.subrange(0, 5)[3] == s[3] && s.subrange(0, 5)[4] == s[4]);
    assert(file_version(s) == current_version());
    assert(file_version(s)[0] == current_version()[0]);
    assert(file_version(s)[1] == current_version()[1]);
    assert(file_version(s)[2] == current_version()[2]);
}

} // verus!
