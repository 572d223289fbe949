//! # W8 opcodes
//!
//! An opcode is the byte of an instruction that tells the virtual machine
//! which operation to perform.
use vstd::prelude::*;

use crate::isa::err::{ISAError, ISAErrorKind};
use crate::text::to_decimal;

verus! {

/// The operation codes of W8, in the order of their byte values
/// (`NOP` is `0`, `VMCALL` is `52`).
#[derive(Debug, Clone, Copy, PartialEq, Eq, Structural)]
pub enum OperationCode {
    /// Does nothing.
    NOP,
    /// `MOVE <dst>, <src1>`: copies `src1` into `dst`.
    MOVE,
    /// `LOAD8 <dst>, <src1>`: 1 byte read from the address `src1` is written into `dst`.
    LOAD8,
    /// `LOAD16 <dst>, <src1>`: 2 bytes read from the address `src1` are written into `dst`.
    LOAD16,
    /// `LOAD32 <dst>, <src1>`: 4 bytes read from the address `src1` are written into `dst`.
    LOAD32,
    /// `LOAD64 <dst>, <src1>`: 8 bytes read from the address `src1` are written into `dst`.
    LOAD64,
    /// `STORE8 <dst>, <src1>`: 1 byte of `src1` is written to the address `dst`.
    STORE8,
    /// `STORE16 <dst>, <src1>`: 2 bytes of `src1` are written to the address `dst`.
    STORE16,
    /// `STORE32 <dst>, <src1>`: 4 bytes of `src1` are written to the address `dst`.
    STORE32,
    /// `STORE64 <dst>, <src1>`: 8 bytes of `src1` are written to the address `dst`.
    STORE64,
    /// `IADD <dst>, <src1>, <src2>`: integer addition.
    IADD,
    /// `ISUB <dst>, <src1>, <src2>`: integer subtraction `src1 - src2`.
    ISUB,
    /// `IMUL <dst>, <src1>, <src2>`: integer multiplication.
    IMUL,
    /// `SDIV <dst>, <src1>, <src2>`: signed integer division.
    SDIV,
    /// `UDIV <dst>, <src1>, <src2>`: unsigned integer division.
    UDIV,
    /// `SREM <dst>, <src1>, <src2>`: remainder of signed division.
    SREM,
    /// `UREM <dst>, <src1>, <src2>`: remainder of unsigned division.
    UREM,
    /// `INEG <dst>, <src1>`: integer negation.
    INEG,
    /// `FADD <dst>, <src1>, <src2>`: floating-point addition.
    FADD,
    /// `FSUB <dst>, <src1>, <src2>`: floating-point subtraction.
    FSUB,
    /// `FMUL <dst>, <src1>, <src2>`: floating-point multiplication.
    FMUL,
    /// `FDIV <dst>, <src1>, <src2>`: floating-point division.
    FDIV,
    /// `FREM <dst>, <src1>, <src2>`: floating-point remainder.
    FREM,
    /// `FNEG <dst>, <src1>`: floating-point negation.
    FNEG,
    /// `AND <dst>, <src1>, <src2>`: bitwise AND.
    AND,
    /// `OR <dst>, <src1>, <src2>`: bitwise OR.
    OR,
    /// `XOR <dst>, <src1>, <src2>`: bitwise XOR.
    XOR,
    /// `NOT <dst>, <src1>`: bitwise NOT.
    NOT,
    /// `LSL <dst>, <src1>, <src2>`: logical shift left.
    LSL,
    /// `LSR <dst>, <src1>, <src2>`: logical shift right.
    LSR,
    /// `SAR <dst>, <src1>, <src2>`: arithmetic shift right.
    SAR,
    /// `IEQ <dst>, <src1>, <src2>`: 1 if `src1 == src2`, otherwise 0.
    IEQ,
    /// `INE <dst>, <src1>, <src2>`: 1 if `src1 != src2`, otherwise 0.
    INE,
    /// `SLT <dst>, <src1>, <src2>`: signed less-than.
    SLT,
    /// `SLE <dst>, <src1>, <src2>`: signed less-than or equal.
    SLE,
    /// `SGT <dst>, <src1>, <src2>`: signed greater-than.
    SGT,
    /// `SGE <dst>, <src1>, <src2>`: signed greater-than or equal.
    SGE,
    /// `ULT <dst>, <src1>, <src2>`: unsigned less-than.
    ULT,
    /// `ULE <dst>, <src1>, <src2>`: unsigned less-than or equal.
    ULE,
    /// `UGT <dst>, <src1>, <src2>`: unsigned greater-than.
    UGT,
    /// `UGE <dst>, <src1>, <src2>`: unsigned greater-than or equal.
    UGE,
    /// `FEQ <dst>, <src1>, <src2>`: floating-point equality.
    FEQ,
    /// `FNE <dst>, <src1>, <src2>`: floating-point inequality.
    FNE,
    /// `FLT <dst>, <src1>, <src2>`: floating-point less-than.
    FLT,
    /// `FLE <dst>, <src1>, <src2>`: floating-point less-than or equal.
    FLE,
    /// `FGT <dst>, <src1>, <src2>`: floating-point greater-than.
    FGT,
    /// `FGE <dst>, <src1>, <src2>`: floating-point greater-than or equal.
    FGE,
    /// `JMP <offset>`: unconditional jump.
    JMP,
    /// `JZ <src1>, <offset>`: jumps if `src1 == 0`.
    JZ,
    /// `JNZ <src1>, <offset>`: jumps if `src1 != 0`.
    JNZ,
    /// `CALL <offset>`: calls a subroutine.
    CALL,
    /// `RET`: returns from a subroutine.
    RET,
    /// `VMCALL <service>, <address>, <size>`: transfers control to the host;
    /// `address..address + size` is the block of arguments of the service.
    VMCALL,
}

/// The byte that encodes an opcode.
pub open spec fn opcode_byte(op: OperationCode) -> u8 {
    match op {
        OperationCode::NOP => 0,
        OperationCode::MOVE => 1,
        OperationCode::LOAD8 => 2,
        OperationCode::LOAD16 => 3,
        OperationCode::LOAD32 => 4,
        OperationCode::LOAD64 => 5,
        OperationCode::STORE8 => 6,
        OperationCode::STORE16 => 7,
        OperationCode::STORE32 => 8,
        OperationCode::STORE64 => 9,
        OperationCode::IADD => 10,
        OperationCode::ISUB => 11,
        OperationCode::IMUL => 12,
        OperationCode::SDIV => 13,
        OperationCode::UDIV => 14,
        OperationCode::SREM => 15,
        OperationCode::UREM => 16,
        OperationCode::INEG => 17,
        OperationCode::FADD => 18,
        OperationCode::FSUB => 19,
        OperationCode::FMUL => 20,
        OperationCode::FDIV => 21,
        OperationCode::FREM => 22,
        OperationCode::FNEG => 23,
        OperationCode::AND => 24,
        OperationCode::OR => 25,
        OperationCode::XOR => 26,
        OperationCode::NOT => 27,
        OperationCode::LSL => 28,
        OperationCode::LSR => 29,
        OperationCode::SAR => 30,
        OperationCode::IEQ => 31,
        OperationCode::INE => 32,
        OperationCode::SLT => 33,
        OperationCode::SLE => 34,
        OperationCode::SGT => 35,
        OperationCode::SGE => 36,
        OperationCode::ULT => 37,
        OperationCode::ULE => 38,
        OperationCode::UGT => 39,
        OperationCode::UGE => 40,
        OperationCode::FEQ => 41,
        OperationCode::FNE => 42,
        OperationCode::FLT => 43,
        OperationCode::FLE => 44,
        OperationCode::FGT => 45,
        OperationCode::FGE => 46,
        OperationCode::JMP => 47,
        OperationCode::JZ => 48,
        OperationCode::JNZ => 49,
        OperationCode::CALL => 50,
        OperationCode::RET => 51,
        OperationCode::VMCALL => 52,
    }
}

/// The opcode that a byte encodes, if any.
pub open spec fn opcode_of_byte(b: u8) -> Option<OperationCode> {
    if b == 0 { Some(OperationCode::NOP) } else
    if b == 1 { Some(OperationCode::MOVE) } else
    if b == 2 { Some(OperationCode::LOAD8) } else
    if b == 3 { Some(OperationCode::LOAD16) } else
    if b == 4 { Some(OperationCode::LOAD32) } else
    if b == 5 { Some(OperationCode::LOAD64) } else
    if b == 6 { Some(OperationCode::STORE8) } else
    if b == 7 { Some(OperationCode::STORE16) } else
    if b == 8 { Some(OperationCode::STORE32) } else
    if b == 9 { Some(OperationCode::STORE64) } else
    if b == 10 { Some(OperationCode::IADD) } else
    if b == 11 { Some(OperationCode::ISUB) } else
    if b == 12 { Some(OperationCode::IMUL) } else
    if b == 13 { Some(OperationCode::SDIV) } else
    if b == 14 { Some(OperationCode::UDIV) } else
    if b == 15 { Some(OperationCode::SREM) } else
    if b == 16 { Some(OperationCode::UREM) } else
    if b == 17 { Some(OperationCode::INEG) } else
    if b == 18 { Some(OperationCode::FADD) } else
    if b == 19 { Some(OperationCode::FSUB) } else
    if b == 20 { Some(OperationCode::FMUL) } else
    if b == 21 { Some(OperationCode::FDIV) } else
    if b == 22 { Some(OperationCode::FREM) } else
    if b == 23 { Some(OperationCode::FNEG) } else
    if b == 24 { Some(OperationCode::AND) } else
    if b == 25 { Some(OperationCode::OR) } else
    if b == 26 { Some(OperationCode::XOR) } else
    if b == 27 { Some(OperationCode::NOT) } else
    if b == 28 { Some(OperationCode::LSL) } else
    if b == 29 { Some(OperationCode::LSR) } else
    if b == 30 { Some(OperationCode::SAR) } else
    if b == 31 { Some(OperationCode::IEQ) } else
    if b == 32 { Some(OperationCode::INE) } else
    if b == 33 { Some(OperationCode::SLT) } else
    if b == 34 { Some(OperationCode::SLE) } else
    if b == 35 { Some(OperationCode::SGT) } else
    if b == 36 { Some(OperationCode::SGE) } else
    if b == 37 { Some(OperationCode::ULT) } else
    if b == 38 { Some(OperationCode::ULE) } else
    if b == 39 { Some(OperationCode::UGT) } else
    if b == 40 { Some(OperationCode::UGE) } else
    if b == 41 { Some(OperationCode::FEQ) } else
    if b == 42 { Some(OperationCode::FNE) } else
    if b == 43 { Some(OperationCode::FLT) } else
    if b == 44 { Some(OperationCode::FLE) } else
    if b == 45 { Some(OperationCode::FGT) } else
    if b == 46 { Some(OperationCode::FGE) } else
    if b == 47 { Some(OperationCode::JMP) } else
    if b == 48 { Some(OperationCode::JZ) } else
    if b == 49 { Some(OperationCode::JNZ) } else
    if b == 50 { Some(OperationCode::CALL) } else
    if b == 51 { Some(OperationCode::RET) } else
    if b == 52 { Some(OperationCode::VMCALL) } else
    { None }
}

/// The name of an opcode, as written in the opcode list (upper case).
pub open spec fn name(op: OperationCode) -> Seq<char> {
    match op {
        OperationCode::NOP => "NOP"@,
        OperationCode::MOVE => "MOVE"@,
        OperationCode::LOAD8 => "LOAD8"@,
        OperationCode::LOAD16 => "LOAD16"@,
        OperationCode::LOAD32 => "LOAD32"@,
        OperationCode::LOAD64 => "LOAD64"@,
        OperationCode::STORE8 => "STORE8"@,
        OperationCode::STORE16 => "STORE16"@,
        OperationCode::STORE32 => "STORE32"@,
        OperationCode::STORE64 => "STORE64"@,
        OperationCode::IADD => "IADD"@,
        OperationCode::ISUB => "ISUB"@,
        OperationCode::IMUL => "IMUL"@,
        OperationCode::SDIV => "SDIV"@,
        OperationCode::UDIV => "UDIV"@,
        OperationCode::SREM => "SREM"@,
        OperationCode::UREM => "UREM"@,
        OperationCode::INEG => "INEG"@,
        OperationCode::FADD => "FADD"@,
        OperationCode::FSUB => "FSUB"@,
        OperationCode::FMUL => "FMUL"@,
        OperationCode::FDIV => "FDIV"@,
        OperationCode::FREM => "FREM"@,
        OperationCode::FNEG => "FNEG"@,
        OperationCode::AND => "AND"@,
        OperationCode::OR => "OR"@,
        OperationCode::XOR => "XOR"@,
        OperationCode::NOT => "NOT"@,
        OperationCode::LSL => "LSL"@,
        OperationCode::LSR => "LSR"@,
        OperationCode::SAR => "SAR"@,
        OperationCode::IEQ => "IEQ"@,
        OperationCode::INE => "INE"@,
        OperationCode::SLT => "SLT"@,
        OperationCode::SLE => "SLE"@,
        OperationCode::SGT => "SGT"@,
        OperationCode::SGE => "SGE"@,
        OperationCode::ULT => "ULT"@,
        OperationCode::ULE => "ULE"@,
        OperationCode::UGT => "UGT"@,
        OperationCode::UGE => "UGE"@,
        OperationCode::FEQ => "FEQ"@,
        OperationCode::FNE => "FNE"@,
        OperationCode::FLT => "FLT"@,
        OperationCode::FLE => "FLE"@,
        OperationCode::FGT => "FGT"@,
        OperationCode::FGE => "FGE"@,
        OperationCode::JMP => "JMP"@,
        OperationCode::JZ => "JZ"@,
        OperationCode::JNZ => "JNZ"@,
        OperationCode::CALL => "CALL"@,
        OperationCode::RET => "RET"@,
        OperationCode::VMCALL => "VMCALL"@,
    }
}

/// The mnemonic of an opcode, in lower case.
pub open spec fn mnemonic(op: OperationCode) -> Seq<char> {
    match op {
        OperationCode::NOP => "nop"@,
        OperationCode::MOVE => "move"@,
        OperationCode::LOAD8 => "load8"@,
        OperationCode::LOAD16 => "load16"@,
        OperationCode::LOAD32 => "load32"@,
        OperationCode::LOAD64 => "load64"@,
        OperationCode::STORE8 => "store8"@,
        OperationCode::STORE16 => "store16"@,
        OperationCode::STORE32 => "store32"@,
        OperationCode::STORE64 => "store64"@,
        OperationCode::IADD => "iadd"@,
        OperationCode::ISUB => "isub"@,
        OperationCode::IMUL => "imul"@,
        OperationCode::SDIV => "sdiv"@,
        OperationCode::UDIV => "udiv"@,
        OperationCode::SREM => "srem"@,
        OperationCode::UREM => "urem"@,
        OperationCode::INEG => "ineg"@,
        OperationCode::FADD => "fadd"@,
        OperationCode::FSUB => "fsub"@,
        OperationCode::FMUL => "fmul"@,
        OperationCode::FDIV => "fdiv"@,
        OperationCode::FREM => "frem"@,
        OperationCode::FNEG => "fneg"@,
        OperationCode::AND => "and"@,
        OperationCode::OR => "or"@,
        OperationCode::XOR => "xor"@,
        OperationCode::NOT => "not"@,
        OperationCode::LSL => "lsl"@,
        OperationCode::LSR => "lsr"@,
        OperationCode::SAR => "sar"@,
        OperationCode::IEQ => "ieq"@,
        OperationCode::INE => "ine"@,
        OperationCode::SLT => "slt"@,
        OperationCode::SLE => "sle"@,
        OperationCode::SGT => "sgt"@,
        OperationCode::SGE => "sge"@,
        OperationCode::ULT => "ult"@,
        OperationCode::ULE => "ule"@,
        OperationCode::UGT => "ugt"@,
        OperationCode::UGE => "uge"@,
        OperationCode::FEQ => "feq"@,
        OperationCode::FNE => "fne"@,
        OperationCode::FLT => "flt"@,
        OperationCode::FLE => "fle"@,
        OperationCode::FGT => "fgt"@,
        OperationCode::FGE => "fge"@,
        OperationCode::JMP => "jmp"@,
        OperationCode::JZ => "jz"@,
        OperationCode::JNZ => "jnz"@,
        OperationCode::CALL => "call"@,
        OperationCode::RET => "ret"@,
        OperationCode::VMCALL => "vmcall"@,
    }
}

/// ASCII lower-casing of a character (other characters are unchanged).
pub open spec fn ascii_lower(c: char) -> char {
    if 'A' <= c && c <= 'Z' {
        ((c as u32) + 32) as char
    } else {
        c
    }
}

/// ASCII lower-casing of a text.
pub open spec fn ascii_lowercase(s: Seq<char>) -> Seq<char> {
    s.map_values(|c: char| ascii_lower(c))
}

/// A number that tells the mnemonics apart: their length, first four
/// characters and last character.
spec fn mnemonic_code(s: Seq<char>) -> int {
    let c = |i: int| if i < s.len() {
        s[i] as int
    } else {
        0
    };
    (((((s.len() as int) * 256 + c(0)) * 256 + c(1)) * 256 + c(2)) * 256 + c(3)) * 256 + s.last() as int
}

/// The code of each opcode's mnemonic.
spec fn code_of(op: OperationCode) -> int {
    match op {
        OperationCode::NOP => 3772850897008,
        OperationCode::MOVE => 4868067976549,
        OperationCode::LOAD8 => 5963283260472,
        OperationCode::LOAD16 => 7062794888246,
        OperationCode::LOAD32 => 7062794888242,
        OperationCode::LOAD64 => 7062794888244,
        OperationCode::STORE8 => 7092944466488,
        OperationCode::STORE16 => 8192456094262,
        OperationCode::STORE32 => 8192456094258,
        OperationCode::STORE64 => 8192456094260,
        OperationCode::IADD => 4850652046436,
        OperationCode::ISUB => 4850955149922,
        OperationCode::IMUL => 4850854489196,
        OperationCode::SDIV => 4893652383350,
        OperationCode::UDIV => 4902242317942,
        OperationCode::SREM => 4893886999917,
        OperationCode::UREM => 4902476934509,
        OperationCode::INEG => 4850870216551,
        OperationCode::FADD => 4837767144548,
        OperationCode::FSUB => 4838070248034,
        OperationCode::FMUL => 4837969587308,
        OperationCode::FDIV => 4837817808502,
        OperationCode::FREM => 4838052425069,
        OperationCode::FNEG => 4837985314663,
        OperationCode::AND => 3716998758500,
        OperationCode::OR => 2677677228146,
        OperationCode::XOR => 3815800701042,
        OperationCode::NOT => 3772851159156,
        OperationCode::LSL => 3764327809132,
        OperationCode::LSR => 3764328202354,
        OperationCode::SAR => 3794090983538,
        OperationCode::IEQ => 3751208353905,
        OperationCode::INE => 3751358562405,
        OperationCode::SLT => 3794275663988,
        OperationCode::SLE => 3794274680933,
        OperationCode::SGT => 3794191777908,
        OperationCode::SGE => 3794190794853,
        OperationCode::ULT => 3802865598580,
        OperationCode::ULE => 3802864615525,
        OperationCode::UGT => 3802781712500,
        OperationCode::UGE => 3802780729445,
        OperationCode::FEQ => 3738323452017,
        OperationCode::FNE => 3738473660517,
        OperationCode::FLT => 3738441089140,
        OperationCode::FLE => 3738440106085,
        OperationCode::FGT => 3738357203060,
        OperationCode::FGE => 3738356220005,
        OperationCode::JMP => 3755637473392,
        OperationCode::JZ => 2656336609402,
        OperationCode::JNZ => 3755654905978,
        OperationCode::CALL => 4824882769004,
        OperationCode::RET => 3789863256180,
        OperationCode::VMCALL => 7105711137132,
    }
}

/// The code of the mnemonic of `op`.
proof fn lemma_mnemonic_code(op: OperationCode)
    ensures
        mnemonic_code(mnemonic(op)) == code_of(op),
{
    match op {
        OperationCode::NOP => {
            reveal_strlit("nop");
        },
        OperationCode::MOVE => {
            reveal_strlit("move");
        },
        OperationCode::LOAD8 => {
            reveal_strlit("load8");
        },
        OperationCode::LOAD16 => {
            reveal_strlit("load16");
        },
        OperationCode::LOAD32 => {
            reveal_strlit("load32");
        },
        OperationCode::LOAD64 => {
            reveal_strlit("load64");
        },
        OperationCode::STORE8 => {
            reveal_strlit("store8");
        },
        OperationCode::STORE16 => {
            reveal_strlit("store16");
        },
        OperationCode::STORE32 => {
            reveal_strlit("store32");
        },
        OperationCode::STORE64 => {
            reveal_strlit("store64");
        },
        OperationCode::IADD => {
            reveal_strlit("iadd");
        },
        OperationCode::ISUB => {
            reveal_strlit("isub");
        },
        OperationCode::IMUL => {
            reveal_strlit("imul");
        },
        OperationCode::SDIV => {
            reveal_strlit("sdiv");
        },
        OperationCode::UDIV => {
            reveal_strlit("udiv");
        },
        OperationCode::SREM => {
            reveal_strlit("srem");
        },
        OperationCode::UREM => {
            reveal_strlit("urem");
        },
        OperationCode::INEG => {
            reveal_strlit("ineg");
        },
        OperationCode::FADD => {
            reveal_strlit("fadd");
        },
        OperationCode::FSUB => {
            reveal_strlit("fsub");
        },
        OperationCode::FMUL => {
            reveal_strlit("fmul");
        },
        OperationCode::FDIV => {
            reveal_strlit("fdiv");
        },
        OperationCode::FREM => {
            reveal_strlit("frem");
        },
        OperationCode::FNEG => {
            reveal_strlit("fneg");
        },
        OperationCode::AND => {
            reveal_strlit("and");
        },
        OperationCode::OR => {
            reveal_strlit("or");
        },
        OperationCode::XOR => {
            reveal_strlit("xor");
        },
        OperationCode::NOT => {
            reveal_strlit("not");
        },
        OperationCode::LSL => {
            reveal_strlit("lsl");
        },
        OperationCode::LSR => {
            reveal_strlit("lsr");
        },
        OperationCode::SAR => {
            reveal_strlit("sar");
        },
        OperationCode::IEQ => {
            reveal_strlit("ieq");
        },
        OperationCode::INE => {
            reveal_strlit("ine");
        },
        OperationCode::SLT => {
            reveal_strlit("slt");
        },
        OperationCode::SLE => {
            reveal_strlit("sle");
        },
        OperationCode::SGT => {
            reveal_strlit("sgt");
        },
        OperationCode::SGE => {
            reveal_strlit("sge");
        },
        OperationCode::ULT => {
            reveal_strlit("ult");
        },
        OperationCode::ULE => {
            reveal_strlit("ule");
        },
        OperationCode::UGT => {
            reveal_strlit("ugt");
        },
        OperationCode::UGE => {
            reveal_strlit("uge");
        },
        OperationCode::FEQ => {
            reveal_strlit("feq");
        },
        OperationCode::FNE => {
            reveal_strlit("fne");
        },
        OperationCode::FLT => {
            reveal_strlit("flt");
        },
        OperationCode::FLE => {
            reveal_strlit("fle");
        },
        OperationCode::FGT => {
            reveal_strlit("fgt");
        },
        OperationCode::FGE => {
            reveal_strlit("fge");
        },
        OperationCode::JMP => {
            reveal_strlit("jmp");
        },
        OperationCode::JZ => {
            reveal_strlit("jz");
        },
        OperationCode::JNZ => {
            reveal_strlit("jnz");
        },
        OperationCode::CALL => {
            reveal_strlit("call");
        },
        OperationCode::RET => {
            reveal_strlit("ret");
        },
        OperationCode::VMCALL => {
            reveal_strlit("vmcall");
        },
    }
}

/// Distinct opcodes have distinct mnemonics, and a mnemonic is in lower
/// case: parsing the mnemonic of an opcode, in any case, gives that opcode.
pub proof fn lemma_mnemonics(a: OperationCode, b: OperationCode)
    ensures
        mnemonic(a) == mnemonic(b) ==> a == b,
        ascii_lowercase(mnemonic(a)) == mnemonic(a),
{
    reveal_strlit("nop");
    reveal_strlit("move");
    reveal_strlit("load8");
    reveal_strlit("load16");
    reveal_strlit("load32");
    reveal_strlit("load64");
    reveal_strlit("store8");
    reveal_strlit("store16");
    reveal_strlit("store32");
    reveal_strlit("store64");
    reveal_strlit("iadd");
    reveal_strlit("isub");
    reveal_strlit("imul");
    reveal_strlit("sdiv");
    reveal_strlit("udiv");
    reveal_strlit("srem");
    reveal_strlit("urem");
    reveal_strlit("ineg");
    reveal_strlit("fadd");
    reveal_strlit("fsub");
    reveal_strlit("fmul");
    reveal_strlit("fdiv");
    reveal_strlit("frem");
    reveal_strlit("fneg");
    reveal_strlit("and");
    reveal_strlit("or");
    reveal_strlit("xor");
    reveal_strlit("not");
    reveal_strlit("lsl");
    reveal_strlit("lsr");
    reveal_strlit("sar");
    reveal_strlit("ieq");
    reveal_strlit("ine");
    reveal_strlit("slt");
    reveal_strlit("sle");
    reveal_strlit("sgt");
    reveal_strlit("sge");
    reveal_strlit("ult");
    reveal_strlit("ule");
    reveal_strlit("ugt");
    reveal_strlit("uge");
    reveal_strlit("feq");
    reveal_strlit("fne");
    reveal_strlit("flt");
    reveal_strlit("fle");
    reveal_strlit("fgt");
    reveal_strlit("fge");
    reveal_strlit("jmp");
    reveal_strlit("jz");
    reveal_strlit("jnz");
    reveal_strlit("call");
    reveal_strlit("ret");
    reveal_strlit("vmcall");
    assert(ascii_lowercase(mnemonic(a)) =~= mnemonic(a));
    lemma_mnemonic_code(a);
    lemma_mnemonic_code(b);
}

/// Byte and opcode are a bijection between `0..=52` and the opcodes.
pub proof fn lemma_opcode_byte(op: OperationCode)
    ensures
        opcode_byte(op) <= 52,
        opcode_of_byte(opcode_byte(op)) == Some(op),
{
}

/// A byte above `52` encodes no opcode; every other byte encodes the opcode
/// that maps back to it.
pub proof fn lemma_opcode_of_byte(b: u8)
    ensures
        opcode_of_byte(b) is None <==> b > 52,
        opcode_of_byte(b) matches Some(op) ==> opcode_byte(op) == b,
{
}

impl OperationCode {
    /// The byte that encodes this opcode.
    pub fn byte(self) -> (r: u8)
        ensures
            r == opcode_byte(self),
    {
        match self {
            OperationCode::NOP => 0,
            OperationCode::MOVE => 1,
            OperationCode::LOAD8 => 2,
            OperationCode::LOAD16 => 3,
            OperationCode::LOAD32 => 4,
            OperationCode::LOAD64 => 5,
            OperationCode::STORE8 => 6,
            OperationCode::STORE16 => 7,
            OperationCode::STORE32 => 8,
            OperationCode::STORE64 => 9,
            OperationCode::IADD => 10,
            OperationCode::ISUB => 11,
            OperationCode::IMUL => 12,
            OperationCode::SDIV => 13,
            OperationCode::UDIV => 14,
            OperationCode::SREM => 15,
            OperationCode::UREM => 16,
            OperationCode::INEG => 17,
            OperationCode::FADD => 18,
            OperationCode::FSUB => 19,
            OperationCode::FMUL => 20,
            OperationCode::FDIV => 21,
            OperationCode::FREM => 22,
            OperationCode::FNEG => 23,
            OperationCode::AND => 24,
            OperationCode::OR => 25,
            OperationCode::XOR => 26,
            OperationCode::NOT => 27,
            OperationCode::LSL => 28,
            OperationCode::LSR => 29,
            OperationCode::SAR => 30,
            OperationCode::IEQ => 31,
            OperationCode::INE => 32,
            OperationCode::SLT => 33,
            OperationCode::SLE => 34,
            OperationCode::SGT => 35,
            OperationCode::SGE => 36,
            OperationCode::ULT => 37,
            OperationCode::ULE => 38,
            OperationCode::UGT => 39,
            OperationCode::UGE => 40,
            OperationCode::FEQ => 41,
            OperationCode::FNE => 42,
            OperationCode::FLT => 43,
            OperationCode::FLE => 44,
            OperationCode::FGT => 45,
            OperationCode::FGE => 46,
            OperationCode::JMP => 47,
            OperationCode::JZ => 48,
            OperationCode::JNZ => 49,
            OperationCode::CALL => 50,
            OperationCode::RET => 51,
            OperationCode::VMCALL => 52,
        }
    }

    /// The opcode that a byte encodes; `None` for a byte above `52`.
    pub fn from_byte(b: u8) -> (r: Option<OperationCode>)
        ensures
            r == opcode_of_byte(b),
    {
        match b {
            0 => Some(OperationCode::NOP),
            1 => Some(OperationCode::MOVE),
            2 => Some(OperationCode::LOAD8),
            3 => Some(OperationCode::LOAD16),
            4 => Some(OperationCode::LOAD32),
            5 => Some(OperationCode::LOAD64),
            6 => Some(OperationCode::STORE8),
            7 => Some(OperationCode::STORE16),
            8 => Some(OperationCode::STORE32),
            9 => Some(OperationCode::STORE64),
            10 => Some(OperationCode::IADD),
            11 => Some(OperationCode::ISUB),
            12 => Some(OperationCode::IMUL),
            13 => Some(OperationCode::SDIV),
            14 => Some(OperationCode::UDIV),
            15 => Some(OperationCode::SREM),
            16 => Some(OperationCode::UREM),
            17 => Some(OperationCode::INEG),
            18 => Some(OperationCode::FADD),
            19 => Some(OperationCode::FSUB),
            20 => Some(OperationCode::FMUL),
            21 => Some(OperationCode::FDIV),
            22 => Some(OperationCode::FREM),
            23 => Some(OperationCode::FNEG),
            24 => Some(OperationCode::AND),
            25 => Some(OperationCode::OR),
            26 => Some(OperationCode::XOR),
            27 => Some(OperationCode::NOT),
            28 => Some(OperationCode::LSL),
            29 => Some(OperationCode::LSR),
            30 => Some(OperationCode::SAR),
            31 => Some(OperationCode::IEQ),
            32 => Some(OperationCode::INE),
            33 => Some(OperationCode::SLT),
            34 => Some(OperationCode::SLE),
            35 => Some(OperationCode::SGT),
            36 => Some(OperationCode::SGE),
            37 => Some(OperationCode::ULT),
            38 => Some(OperationCode::ULE),
            39 => Some(OperationCode::UGT),
            40 => Some(OperationCode::UGE),
            41 => Some(OperationCode::FEQ),
            42 => Some(OperationCode::FNE),
            43 => Some(OperationCode::FLT),
            44 => Some(OperationCode::FLE),
            45 => Some(OperationCode::FGT),
            46 => Some(OperationCode::FGE),
            47 => Some(OperationCode::JMP),
            48 => Some(OperationCode::JZ),
            49 => Some(OperationCode::JNZ),
            50 => Some(OperationCode::CALL),
            51 => Some(OperationCode::RET),
            52 => Some(OperationCode::VMCALL),
            _ => None,
        }
    }

    /// The opcode that a byte encodes; an `UnknownOperationCode` error, with
    /// the byte in decimal, for a byte above `52`.
    pub fn try_from(value: u8) -> (r: Result<OperationCode, ISAError>)
        ensures
            value <= 52 ==> r == Ok::<OperationCode, ISAError>(opcode_of_byte(value).unwrap()),
            value > 52 ==> (r matches Err(e) && e.kind matches ISAErrorKind::UnknownOperationCode(s)
                && s@ == crate::text::decimal(value as nat)),
    {
        match Self::from_byte(value) {
            Some(op) => Ok(op),
            None => Err(ISAError::new(ISAErrorKind::UnknownOperationCode(to_decimal(value as u64)))),
        }
    }

    /// The name of this opcode, as written in the opcode list (upper case).
    pub fn name(self) -> (r: &'static str)
        ensures
            r@ == name(self),
    {
        match self {
            OperationCode::NOP => "NOP",
            OperationCode::MOVE => "MOVE",
            OperationCode::LOAD8 => "LOAD8",
            OperationCode::LOAD16 => "LOAD16",
            OperationCode::LOAD32 => "LOAD32",
            OperationCode::LOAD64 => "LOAD64",
            OperationCode::STORE8 => "STORE8",
            OperationCode::STORE16 => "STORE16",
            OperationCode::STORE32 => "STORE32",
            OperationCode::STORE64 => "STORE64",
            OperationCode::IADD => "IADD",
            OperationCode::ISUB => "ISUB",
            OperationCode::IMUL => "IMUL",
            OperationCode::SDIV => "SDIV",
            OperationCode::UDIV => "UDIV",
            OperationCode::SREM => "SREM",
            OperationCode::UREM => "UREM",
            OperationCode::INEG => "INEG",
            OperationCode::FADD => "FADD",
            OperationCode::FSUB => "FSUB",
            OperationCode::FMUL => "FMUL",
            OperationCode::FDIV => "FDIV",
            OperationCode::FREM => "FREM",
            OperationCode::FNEG => "FNEG",
            OperationCode::AND => "AND",
            OperationCode::OR => "OR",
            OperationCode::XOR => "XOR",
            OperationCode::NOT => "NOT",
            OperationCode::LSL => "LSL",
            OperationCode::LSR => "LSR",
            OperationCode::SAR => "SAR",
            OperationCode::IEQ => "IEQ",
            OperationCode::INE => "INE",
            OperationCode::SLT => "SLT",
            OperationCode::SLE => "SLE",
            OperationCode::SGT => "SGT",
            OperationCode::SGE => "SGE",
            OperationCode::ULT => "ULT",
            OperationCode::ULE => "ULE",
            OperationCode::UGT => "UGT",
            OperationCode::UGE => "UGE",
            OperationCode::FEQ => "FEQ",
            OperationCode::FNE => "FNE",
            OperationCode::FLT => "FLT",
            OperationCode::FLE => "FLE",
            OperationCode::FGT => "FGT",
            OperationCode::FGE => "FGE",
            OperationCode::JMP => "JMP",
            OperationCode::JZ => "JZ",
            OperationCode::JNZ => "JNZ",
            OperationCode::CALL => "CALL",
            OperationCode::RET => "RET",
            OperationCode::VMCALL => "VMCALL",
        }
    }

    /// The lower-case mnemonic of this opcode.
    pub fn mnemonic(self) -> (r: &'static str)
        ensures
            r@ == mnemonic(self),
    {
        match self {
            OperationCode::NOP => "nop",
            OperationCode::MOVE => "move",
            OperationCode::LOAD8 => "load8",
            OperationCode::LOAD16 => "load16",
            OperationCode::LOAD32 => "load32",
            OperationCode::LOAD64 => "load64",
            OperationCode::STORE8 => "store8",
            OperationCode::STORE16 => "store16",
            OperationCode::STORE32 => "store32",
            OperationCode::STORE64 => "store64",
            OperationCode::IADD => "iadd",
            OperationCode::ISUB => "isub",
            OperationCode::IMUL => "imul",
            OperationCode::SDIV => "sdiv",
            OperationCode::UDIV => "udiv",
            OperationCode::SREM => "srem",
            OperationCode::UREM => "urem",
            OperationCode::INEG => "ineg",
            OperationCode::FADD => "fadd",
            OperationCode::FSUB => "fsub",
            OperationCode::FMUL => "fmul",
            OperationCode::FDIV => "fdiv",
            OperationCode::FREM => "frem",
            OperationCode::FNEG => "fneg",
            OperationCode::AND => "and",
            OperationCode::OR => "or",
            OperationCode::XOR => "xor",
            OperationCode::NOT => "not",
            OperationCode::LSL => "lsl",
            OperationCode::LSR => "lsr",
            OperationCode::SAR => "sar",
            OperationCode::IEQ => "ieq",
            OperationCode::INE => "ine",
            OperationCode::SLT => "slt",
            OperationCode::SLE => "sle",
            OperationCode::SGT => "sgt",
            OperationCode::SGE => "sge",
            OperationCode::ULT => "ult",
            OperationCode::ULE => "ule",
            OperationCode::UGT => "ugt",
            OperationCode::UGE => "uge",
            OperationCode::FEQ => "feq",
            OperationCode::FNE => "fne",
            OperationCode::FLT => "flt",
            OperationCode::FLE => "fle",
            OperationCode::FGT => "fgt",
            OperationCode::FGE => "fge",
            OperationCode::JMP => "jmp",
            OperationCode::JZ => "jz",
            OperationCode::JNZ => "jnz",
            OperationCode::CALL => "call",
            OperationCode::RET => "ret",
            OperationCode::VMCALL => "vmcall",
        }
    }

    /// Parses a mnemonic, ignoring ASCII case; an `UnknownOperationCode`
    /// error carrying the text otherwise.
    pub fn parse(s: &str) -> (r: Result<OperationCode, ISAError>)
        ensures
            r matches Ok(op) ==> ascii_lowercase(s@) == mnemonic(op),
            r is Err <==> forall|op: OperationCode| ascii_lowercase(s@) != #[trigger] mnemonic(op),
            r matches Err(e) ==> (e.kind matches ISAErrorKind::UnknownOperationCode(t) && t@ == s@),
    {
        let mut b: u8 = 0;
        while b < 53
            invariant
                b <= 53,
                forall|c: u8| c < b ==> ascii_lowercase(s@) != mnemonic(#[trigger] opcode_of_byte(c).unwrap()),
            decreases 53 - b,
        {
            let op = Self::from_byte(b).unwrap();
            if eq_ignore_ascii_case(s, op.mnemonic()) {
                return Ok(op);
            }
            b = b + 1;
        }
        proof {
            assert forall|op: OperationCode| ascii_lowercase(s@) != #[trigger] mnemonic(op) by {
                lemma_opcode_byte(op);
                assert(opcode_of_byte(opcode_byte(op)).unwrap() == op);
            }
        }
        Err(ISAError::new(ISAErrorKind::UnknownOperationCode(String::from_str(s))))
    }
}

fn ascii_lower_char(c: char) -> (r: char)
    ensures
        r == ascii_lower(c),
{
    if 'A' <= c && c <= 'Z' {
        let b: u8 = c as u8;
        (b + 32) as char
    } else {
        c
    }
}

/// Whether `s`, lower-cased, is `lower`.
fn eq_ignore_ascii_case(s: &str, lower: &str) -> (r: bool)
    ensures
        r == (ascii_lowercase(s@) == lower@),
{
    let n = s.unicode_len();
    if n != lower.unicode_len() {
        proof {
            assert(ascii_lowercase(s@).len() == s@.len());
        }
        return false;
    }
    let mut i: usize = 0;
    while i < n
        invariant
            n == s@.len(),
            n == lower@.len(),
            i <= n,
            forall|j: int| 0 <= j < i ==> ascii_lower(s@[j]) == lower@[j],
        decreases n - i,
    {
        if ascii_lower_char(s.get_char(i)) != lower.get_char(i) {
            proof {
                assert(ascii_lowercase(s@)[i as int] != lower@[i as int]);
            }
            return false;
        }
        i = i + 1;
    }
    proof {
        assert(ascii_lowercase(s@) =~= lower@);
    }
    true
}

impl core::str::FromStr for OperationCode {
    type Err = ISAError;

    /// The opcode whose mnemonic is `s` in any letter case, as
    /// [`OperationCode::parse`] finds it.
    fn from_str(s: &str) -> (r: Result<Self, Self::Err>)
        ensures
            r matches Ok(op) ==> ascii_lowercase(s@) == mnemonic(op),
            r is Err <==> forall|op: OperationCode| ascii_lowercase(s@) != #[trigger] mnemonic(op),
            r matches Err(e) ==> (e.kind matches ISAErrorKind::UnknownOperationCode(t) && t@ == s@),
    {
        Self::parse(s)
    }
}

} // verus!
