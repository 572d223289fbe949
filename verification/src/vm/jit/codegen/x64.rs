//! # x64 code generator
//!
//! [`JITCodegen::generate`] turns a program into one flat blob of x64
//! machine code.
//!
//! ## Register model
//!
//! Each W8 register lives at a fixed cell of the host memory. Every read of
//! a W8 register is a `mov` through the cell's absolute address (the
//! `moffs64` form, which only works through `RAX`, or a load through `RDX`
//! into `RCX`); every write is `mov [moffs64], rax`.
//!
//! ## Layout
//!
//! The instructions come first, in order, each lowered on its own. A
//! program with a `RET` then has a jump to the epilogue (unless its last
//! instruction never falls through) and the error stub of `RET` on an empty
//! call stack. The epilogue is a single `ret`; out-of-range jumps land on
//! it, as running past the end of the program ends it in the interpreter.
//! A program with dynamic jumps (through a register, or `RET`) ends with
//! the address table, 8-byte aligned: the absolute address of each
//! instruction.
//!
//! Generation takes two passes: the first lowers every instruction with
//! placeholder targets to learn where each one starts (and to find the
//! first instruction that cannot be lowered); the second lowers them again
//! with every target resolved.
//!
//! ## Calls and `VMCALL`
//!
//! `CALL` and `RET` keep instruction indices on the machine's call stack
//! through two trampolines; `RET` on an empty stack reports
//! [`VmcallOut::EMPTY_CALL_STACK`] through the status cell and leaves
//! through the error stub. `VMCALL` calls its trampoline and leaves through
//! the epilogue when the trampoline returns nonzero.
use vstd::prelude::*;

use crate::bytes::u64_le_bytes;
use crate::isa::instruction::Instruction;
use crate::isa::opcode::OperationCode;
use crate::isa::operand::OperandKind;
use crate::isa::register::Register;
use crate::vm::err::{VMError, VMErrorKind};
use crate::vm::jit::codegen::{CallingConvention, GenContext, GeneratedCode, JITCodegen, VmcallOut};

verus! {

// ====== The bytes of the generated code ======

/// The `rel32` field at `pos` that jumps to `target`: the little-endian
/// two's complement of `target - (pos + 4)`.
pub open spec fn rel32(pos: int, target: int) -> Seq<u8> {
    crate::bytes::u32_le_bytes(((target - (pos + 4)) % 0x1_0000_0000) as u32)
}

/// `mov rax, <operand>`: the register's cell through `moffs64`, or the
/// immediate.
pub open spec fn rax_from(cg: JITCodegen, k: OperandKind) -> Seq<u8> {
    match k {
        OperandKind::Register(r) => seq![0x48u8, 0xA1u8] + u64_le_bytes(cg.register_address(r.0 as int)),
        OperandKind::Immediate(v) => seq![0x48u8, 0xB8u8] + u64_le_bytes(v),
    }
}

/// `mov rcx, <operand>`: a register through `RDX` (`mov rdx, <cell>;
/// mov rcx, [rdx]`), or the immediate.
pub open spec fn rcx_from(cg: JITCodegen, k: OperandKind) -> Seq<u8> {
    match k {
        OperandKind::Register(r) => seq![0x48u8, 0xBAu8] + u64_le_bytes(cg.register_address(r.0 as int))
            + seq![0x48u8, 0x8Bu8, 0x0Au8],
        OperandKind::Immediate(v) => seq![0x48u8, 0xB9u8] + u64_le_bytes(v),
    }
}

/// `mov [<cell of r>], rax`.
pub open spec fn rax_to(cg: JITCodegen, r: Register) -> Seq<u8> {
    seq![0x48u8, 0xA3u8] + u64_le_bytes(cg.register_address(r.0 as int))
}

/// `movq xmm0, rax`.
pub open spec fn movq_xmm0_rax() -> Seq<u8> {
    seq![0x66u8, 0x48u8, 0x0Fu8, 0x6Eu8, 0xC0u8]
}

/// `movq xmm1, rcx`.
pub open spec fn movq_xmm1_rcx() -> Seq<u8> {
    seq![0x66u8, 0x48u8, 0x0Fu8, 0x6Eu8, 0xC9u8]
}

/// `movq rax, xmm0`.
pub open spec fn movq_rax_xmm0() -> Seq<u8> {
    seq![0x66u8, 0x48u8, 0x0Fu8, 0x7Eu8, 0xC0u8]
}

/// `movq rcx, xmm1`.
pub open spec fn movq_rcx_xmm1() -> Seq<u8> {
    seq![0x66u8, 0x48u8, 0x0Fu8, 0x7Eu8, 0xC9u8]
}

/// The two integer sources in `RAX` and `RCX`.
pub open spec fn integer_operands(cg: JITCodegen, l: OperandKind, r: OperandKind) -> Seq<u8> {
    rax_from(cg, l) + rcx_from(cg, r)
}

/// The two floating-point sources in `XMM0` and `XMM1`.
pub open spec fn float_operands(cg: JITCodegen, l: OperandKind, r: OperandKind) -> Seq<u8> {
    rax_from(cg, l) + movq_xmm0_rax() + rcx_from(cg, r) + movq_xmm1_rcx()
}

/// The operation of an integer instruction on `RAX` and `RCX`, leaving the
/// result in `RAX`.
pub open spec fn integer_op(op: OperationCode) -> Seq<u8> {
    match op {
        OperationCode::IADD => seq![0x48u8, 0x01u8, 0xC8u8],
        OperationCode::ISUB => seq![0x48u8, 0x29u8, 0xC8u8],
        OperationCode::IMUL => seq![0x48u8, 0x0Fu8, 0xAFu8, 0xC1u8],
        OperationCode::SDIV => seq![0x48u8, 0x99u8, 0x48u8, 0xF7u8, 0xF9u8],
        OperationCode::UDIV => seq![0x31u8, 0xD2u8, 0x48u8, 0xF7u8, 0xF1u8],
        OperationCode::SREM => seq![0x48u8, 0x99u8, 0x48u8, 0xF7u8, 0xF9u8, 0x48u8, 0x89u8, 0xD0u8],
        OperationCode::UREM => seq![0x31u8, 0xD2u8, 0x48u8, 0xF7u8, 0xF1u8, 0x48u8, 0x89u8, 0xD0u8],
        OperationCode::AND => seq![0x48u8, 0x21u8, 0xC8u8],
        OperationCode::OR => seq![0x48u8, 0x09u8, 0xC8u8],
        OperationCode::XOR => seq![0x48u8, 0x31u8, 0xC8u8],
        OperationCode::LSL => seq![0x48u8, 0xD3u8, 0xE0u8],
        OperationCode::LSR => seq![0x48u8, 0xD3u8, 0xE8u8],
        _ => seq![0x48u8, 0xD3u8, 0xF8u8],
    }
}

/// What the instruction `code` does to `RAX`, given `RAX` and `RCX`, for
/// the encodings of integer operations on these two registers that the x64
/// instruction set defines (Intel SDM, vol. 2): `add`, `sub`, `imul`,
/// `and`, `or`, `xor` of `RCX` into `RAX`, and `shl`, `shr`, `sar` of `RAX`
/// by `CL` (the count masked to 6 bits; `sar` shifts the signed value,
/// copying the sign bit in). `None` for any other bytes.
pub open spec fn x64_effect(code: Seq<u8>, rax: u64, rcx: u64) -> Option<u64> {
    if code.len() == 3 && code[0] == 0x48 {
        if code[1] == 0x01 && code[2] == 0xC8 {
            Some(vstd::wrapping::u64_specs::wrapping_add(rax, rcx))
        } else if code[1] == 0x29 && code[2] == 0xC8 {
            Some(vstd::wrapping::u64_specs::wrapping_sub(rax, rcx))
        } else if code[1] == 0x21 && code[2] == 0xC8 {
            Some(rax & rcx)
        } else if code[1] == 0x09 && code[2] == 0xC8 {
            Some(rax | rcx)
        } else if code[1] == 0x31 && code[2] == 0xC8 {
            Some(rax ^ rcx)
        } else if code[1] == 0xD3 && code[2] == 0xE0 {
            Some(rax << (rcx % 64))
        } else if code[1] == 0xD3 && code[2] == 0xE8 {
            Some(rax >> (rcx % 64))
        } else if code[1] == 0xD3 && code[2] == 0xF8 {
            Some(((rax as i64) >> (rcx % 64)) as u64)
        } else {
            None
        }
    } else if code.len() == 4 && code[0] == 0x48 && code[1] == 0x0F && code[2] == 0xAF && code[3]
        == 0xC1 {
        Some(vstd::wrapping::u64_specs::wrapping_mul(rax, rcx))
    } else {
        None
    }
}

/// The operation that the generated code applies to its two integer
/// sources computes, on every pair of values, what the instruction means
/// (see [`crate::vm::semantics::int_binary`]): in particular `SAR` shifts
/// arithmetically, keeping the sign bit.
pub proof fn lemma_integer_ops_compute(op: OperationCode, l: u64, r: u64)
    requires
        op == OperationCode::IADD || op == OperationCode::ISUB || op == OperationCode::IMUL || op
            == OperationCode::AND || op == OperationCode::OR || op == OperationCode::XOR || op
            == OperationCode::LSL || op == OperationCode::LSR || op == OperationCode::SAR,
    ensures
        x64_effect(integer_op(op), l, r) == Some(crate::vm::semantics::int_binary(op, l, r)),
{
    crate::vm::semantics::lemma_arithmetic_shift(l, r);
}

/// The `setcc al` of an integer comparison.
pub open spec fn setcc(op: OperationCode) -> Seq<u8> {
    match op {
        OperationCode::IEQ => seq![0x0Fu8, 0x94u8, 0xC0u8],
        OperationCode::INE => seq![0x0Fu8, 0x95u8, 0xC0u8],
        OperationCode::SLT => seq![0x0Fu8, 0x9Cu8, 0xC0u8],
        OperationCode::SLE => seq![0x0Fu8, 0x9Eu8, 0xC0u8],
        OperationCode::SGT => seq![0x0Fu8, 0x9Fu8, 0xC0u8],
        OperationCode::SGE => seq![0x0Fu8, 0x9Du8, 0xC0u8],
        OperationCode::ULT => seq![0x0Fu8, 0x92u8, 0xC0u8],
        OperationCode::ULE => seq![0x0Fu8, 0x96u8, 0xC0u8],
        OperationCode::UGT => seq![0x0Fu8, 0x97u8, 0xC0u8],
        _ => seq![0x0Fu8, 0x93u8, 0xC0u8],
    }
}

/// Whether `setcc` with the condition byte `cc` (of its `0F cc` form) sets
/// its byte after `cmp a, b` on 64-bit values, as the x64 instruction set
/// defines the conditions (Intel SDM, vol. 2, `SETcc`): below and above
/// order the unsigned values, less and greater the signed ones.
pub open spec fn setcc_holds(cc: u8, a: u64, b: u64) -> bool {
    if cc == 0x92 {
        a < b
    } else if cc == 0x93 {
        a >= b
    } else if cc == 0x94 {
        a == b
    } else if cc == 0x95 {
        a != b
    } else if cc == 0x96 {
        a <= b
    } else if cc == 0x97 {
        a > b
    } else if cc == 0x9C {
        (a as i64) < (b as i64)
    } else if cc == 0x9D {
        (a as i64) >= (b as i64)
    } else if cc == 0x9E {
        (a as i64) <= (b as i64)
    } else if cc == 0x9F {
        (a as i64) > (b as i64)
    } else {
        false
    }
}

/// The `setcc` of each integer comparison computes, on every pair of
/// values, what the instruction means (see
/// [`crate::vm::semantics::int_binary`]).
pub proof fn lemma_comparisons_compute(op: OperationCode, l: u64, r: u64)
    requires
        op == OperationCode::IEQ || op == OperationCode::INE || op == OperationCode::SLT || op
            == OperationCode::SLE || op == OperationCode::SGT || op == OperationCode::SGE || op
            == OperationCode::ULT || op == OperationCode::ULE || op == OperationCode::UGT || op
            == OperationCode::UGE,
    ensures
        setcc(op).len() == 3 && setcc(op)[0] == 0x0F && setcc(op)[2] == 0xC0,
        (if setcc_holds(setcc(op)[1], l, r) {
            1u64
        } else {
            0u64
        }) == crate::vm::semantics::int_binary(op, l, r),
{
    crate::vm::semantics::lemma_signed_order(l, r);
}

/// The scalar double operation of a floating-point instruction on `XMM0`
/// and `XMM1`.
pub open spec fn float_op(op: OperationCode) -> Seq<u8> {
    match op {
        OperationCode::FADD => seq![0xF2u8, 0x0Fu8, 0x58u8, 0xC1u8],
        OperationCode::FSUB => seq![0xF2u8, 0x0Fu8, 0x5Cu8, 0xC1u8],
        OperationCode::FMUL => seq![0xF2u8, 0x0Fu8, 0x59u8, 0xC1u8],
        _ => seq![0xF2u8, 0x0Fu8, 0x5Eu8, 0xC1u8],
    }
}

/// The condition of a floating-point comparison after `ucomisd`, in `AL`;
/// the conditions that unordered operands (NaN) also satisfy are combined
/// with the parity flag.
pub open spec fn float_condition(op: OperationCode) -> Seq<u8> {
    match op {
        OperationCode::FEQ => seq![0x0Fu8, 0x94u8, 0xC0u8, 0x0Fu8, 0x9Bu8, 0xC1u8, 0x22u8, 0xC1u8],
        OperationCode::FNE => seq![0x0Fu8, 0x95u8, 0xC0u8, 0x0Fu8, 0x9Au8, 0xC1u8, 0x0Au8, 0xC1u8],
        OperationCode::FLT => seq![0x0Fu8, 0x92u8, 0xC0u8, 0x0Fu8, 0x9Bu8, 0xC1u8, 0x22u8, 0xC1u8],
        OperationCode::FLE => seq![0x0Fu8, 0x96u8, 0xC0u8, 0x0Fu8, 0x9Bu8, 0xC1u8, 0x22u8, 0xC1u8],
        OperationCode::FGT => seq![0x0Fu8, 0x97u8, 0xC0u8],
        _ => seq![0x0Fu8, 0x93u8, 0xC0u8],
    }
}

/// The access of a `LOAD*` at `[rdx]`, zero-extended into `RAX`.
pub open spec fn load_access(op: OperationCode) -> Seq<u8> {
    match op {
        OperationCode::LOAD8 => seq![0x0Fu8, 0xB6u8, 0x02u8],
        OperationCode::LOAD16 => seq![0x0Fu8, 0xB7u8, 0x02u8],
        OperationCode::LOAD32 => seq![0x8Bu8, 0x02u8],
        _ => seq![0x48u8, 0x8Bu8, 0x02u8],
    }
}

/// The access of a `STORE*` at `[rdx]` from the low part of `RCX`.
pub open spec fn store_access(op: OperationCode) -> Seq<u8> {
    match op {
        OperationCode::STORE8 => seq![0x88u8, 0x0Au8],
        OperationCode::STORE16 => seq![0x66u8, 0x89u8, 0x0Au8],
        OperationCode::STORE32 => seq![0x89u8, 0x0Au8],
        _ => seq![0x48u8, 0x89u8, 0x0Au8],
    }
}

/// `RDX` pointed at the byte of the machine's memory whose offset is in
/// `RAX`: the memory base is read from its cell, then the offset is added.
pub open spec fn memory_pointer(ctx: GenContext) -> Seq<u8> {
    seq![0x48u8, 0xBAu8] + u64_le_bytes(ctx.membase_addr) + seq![0x48u8, 0x8Bu8, 0x12u8]
        + seq![0x48u8, 0x01u8, 0xC2u8]
}

/// The sequence of the `FREM` remainder on the x87 stack between loading
/// the operands and storing the result.
pub open spec fn frem_body() -> Seq<u8> {
    seq![0x48u8, 0x83u8, 0xECu8, 0x10u8] + movq_rax_xmm0() + seq![0x48u8, 0x89u8, 0x04u8, 0x24u8]
        + movq_rcx_xmm1() + seq![0x48u8, 0x89u8, 0x4Cu8, 0x24u8, 0x08u8] + seq![
        0xDDu8,
        0x44u8,
        0x24u8,
        0x08u8,
    ] + seq![0xDDu8, 0x04u8, 0x24u8] + seq![0xDEu8, 0xF8u8] + seq![0xDFu8, 0xE0u8] + seq![
        0xF6u8,
        0xC4u8,
        0x04u8,
    ] + seq![0x75u8, 0xF7u8] + seq![0xDDu8, 0x1Cu8, 0x24u8] + seq![0xDDu8, 0xD8u8] + seq![
        0x48u8,
        0x8Bu8,
        0x04u8,
        0x24u8,
    ] + seq![0x48u8, 0x83u8, 0xC4u8, 0x10u8]
}

/// The `FNEG` sequence between loading the source into `RAX` and storing
/// the result: the sign bit is flipped with `xorpd`.
pub open spec fn fneg_body() -> Seq<u8> {
    movq_xmm0_rax() + seq![0x48u8, 0xB9u8] + u64_le_bytes(0x8000_0000_0000_0000) + movq_xmm1_rcx()
        + seq![0x66u8, 0x0Fu8, 0x57u8, 0xC1u8] + movq_rax_xmm0()
}

/// A call of the trampoline at `function` with two arguments, keeping the
/// stack aligned (and, on Windows, reserving the shadow space).
pub open spec fn call_with_two(
    convention: CallingConvention,
    first: u64,
    second: u64,
    function: u64,
) -> Seq<u8> {
    match convention {
        CallingConvention::SystemV => seq![0x48u8, 0x83u8, 0xECu8, 0x08u8] + seq![0x48u8, 0xBFu8]
            + u64_le_bytes(first) + seq![0x48u8, 0xBEu8] + u64_le_bytes(second) + seq![0x48u8, 0xB8u8]
            + u64_le_bytes(function) + seq![0xFFu8, 0xD0u8] + seq![0x48u8, 0x83u8, 0xC4u8, 0x08u8],
        CallingConvention::Windows => seq![0x48u8, 0x83u8, 0xECu8, 0x28u8] + seq![0x48u8, 0xB9u8]
            + u64_le_bytes(first) + seq![0x48u8, 0xBAu8] + u64_le_bytes(second) + seq![0x48u8, 0xB8u8]
            + u64_le_bytes(function) + seq![0xFFu8, 0xD0u8] + seq![0x48u8, 0x83u8, 0xC4u8, 0x28u8],
    }
}

/// The call of the `VMCALL` trampoline with the machine, the three operands
/// and the out block.
pub open spec fn vmcall_call(
    cg: JITCodegen,
    ctx: GenContext,
    service: OperandKind,
    address: OperandKind,
    size: OperandKind,
) -> Seq<u8> {
    match ctx.convention {
        CallingConvention::SystemV => seq![0x48u8, 0x83u8, 0xECu8, 0x08u8] + seq![0x48u8, 0xBFu8]
            + u64_le_bytes(ctx.wvm) + rax_from(cg, service) + seq![0x48u8, 0x89u8, 0xC6u8] + rax_from(
            cg,
            address,
        ) + seq![0x48u8, 0x89u8, 0xC2u8] + rax_from(cg, size) + seq![0x48u8, 0x89u8, 0xC1u8] + seq![
            0x49u8,
            0xB8u8,
        ] + u64_le_bytes(ctx.out) + seq![0x48u8, 0xB8u8] + u64_le_bytes(ctx.vmcall) + seq![
            0xFFu8,
            0xD0u8,
        ] + seq![0x48u8, 0x83u8, 0xC4u8, 0x08u8],
        CallingConvention::Windows => seq![0x48u8, 0x83u8, 0xECu8, 0x28u8] + seq![0x48u8, 0xB9u8]
            + u64_le_bytes(ctx.wvm) + rax_from(cg, service) + seq![0x48u8, 0x89u8, 0xC2u8] + rax_from(
            cg,
            address,
        ) + seq![0x49u8, 0x89u8, 0xC0u8] + rax_from(cg, size) + seq![0x49u8, 0x89u8, 0xC1u8] + seq![
            0x48u8,
            0xB8u8,
        ] + u64_le_bytes(ctx.out) + seq![0x48u8, 0x89u8, 0x44u8, 0x24u8, 0x20u8] + seq![
            0x48u8,
            0xB8u8,
        ] + u64_le_bytes(ctx.vmcall) + seq![0xFFu8, 0xD0u8] + seq![0x48u8, 0x83u8, 0xC4u8, 0x28u8],
    }
}

// ====== Targets ======

/// Where the targets of the generated jumps lie: the start of each
/// instruction, the epilogue, the error stub of `RET`, and the base and
/// length of the address table.
#[verifier::ext_equal]
pub struct Targets {
    pub offsets: Seq<int>,
    pub epilogue: int,
    pub error_stub: int,
    pub table_base: u64,
    pub table_len: u64,
}

/// The offset that a jump to instruction `t` lands on: the instruction's
/// start, or the epilogue for an index outside the program.
pub open spec fn target_offset(t: Targets, index: int) -> int {
    if 0 <= index < t.offsets.len() {
        t.offsets[index]
    } else {
        t.epilogue
    }
}

/// The dynamic jump that starts at `start`, to the instruction whose index
/// is in `RAX`: an index outside the address table goes to the epilogue.
pub open spec fn dynamic_jump(t: Targets, start: int) -> Seq<u8> {
    seq![0x48u8, 0xBAu8] + u64_le_bytes(t.table_base) + seq![0x48u8, 0xB9u8] + u64_le_bytes(
        t.table_len,
    ) + seq![0x48u8, 0x39u8, 0xC8u8] + seq![0x0Fu8, 0x83u8] + rel32(start + 25, t.epilogue) + seq![
        0x48u8,
        0x8Bu8,
        0x04u8,
        0xC2u8,
    ] + seq![0xFFu8, 0xE0u8]
}

/// A `rel32` field jumps where it was written to: read back as a signed
/// 32-bit displacement from the end of the field at `pos`, it lands on
/// `target`.
pub proof fn lemma_rel32_lands(pos: int, target: int)
    requires
        -0x8000_0000 <= target - (pos + 4) < 0x8000_0000,
    ensures
        ({
            let u = crate::bytes::le_u32(rel32(pos, target), 0);
            pos + 4 + (if u < 0x8000_0000 {
                u as int
            } else {
                u - 0x1_0000_0000
            }) == target
        }),
{
    let x = ((target - (pos + 4)) % 0x1_0000_0000) as u32;
    crate::bytes::lemma_u32_roundtrip(x);
}

// ====== Lowering one instruction ======

/// What lowering one instruction gives: its bytes, an error, or a panic of
/// the generator (an operand missing before a present one).
pub enum Lowering {
    Code(Seq<u8>),
    Error(VMErrorKind),
    Panic,
}

/// The error of an instruction with the wrong number of operands.
pub open spec fn count_error(expected: u8, i: Instruction) -> Lowering {
    Lowering::Error(VMErrorKind::IncorrectNumberOfOperands { expected, got: i.count() as u8 })
}

/// The error of an immediate where a register is required.
pub open spec fn type_error(got: OperandKind) -> Lowering {
    Lowering::Error(
        VMErrorKind::IncorrectTypeOfOperand { expected: OperandKind::Register(Register(0)), got },
    )
}

/// Whether the operand names an existing register, if it is one.
pub open spec fn fits(k: OperandKind) -> bool {
    k matches OperandKind::Register(r) ==> r.is_valid()
}

/// The error of an operand that names a register that does not exist.
pub open spec fn register_error(k: OperandKind) -> Lowering {
    Lowering::Error(
        VMErrorKind::InvalidRegister {
            got: match k {
                OperandKind::Register(r) => r.0,
                OperandKind::Immediate(_) => 0,
            },
        },
    )
}

/// An instruction of one operand: `f` of its kind.
pub open spec fn with_one(i: Instruction, f: spec_fn(OperandKind) -> Seq<u8>) -> Lowering {
    if i.count() != 1 {
        count_error(1, i)
    } else if i.operand1 is None {
        Lowering::Panic
    } else {
        let a = i.operand1.unwrap().kind;
        if fits(a) {
            Lowering::Code(f(a))
        } else {
            register_error(a)
        }
    }
}

/// An instruction of two operands of any kind: `f` of their kinds.
pub open spec fn with_two(i: Instruction, f: spec_fn(OperandKind, OperandKind) -> Seq<u8>) -> Lowering {
    if i.count() != 2 {
        count_error(2, i)
    } else if i.operand1 is None || i.operand2 is None {
        Lowering::Panic
    } else {
        let a = i.operand1.unwrap().kind;
        let b = i.operand2.unwrap().kind;
        if !fits(a) {
            register_error(a)
        } else if !fits(b) {
            register_error(b)
        } else {
            Lowering::Code(f(a, b))
        }
    }
}

/// An instruction of a destination register and one source: `f` of them.
pub open spec fn with_destination_one(
    i: Instruction,
    f: spec_fn(Register, OperandKind) -> Seq<u8>,
) -> Lowering {
    if i.count() != 2 {
        count_error(2, i)
    } else if i.operand1 is None || i.operand2 is None {
        Lowering::Panic
    } else {
        let b = i.operand2.unwrap().kind;
        match i.operand1.unwrap().kind {
            OperandKind::Register(d) => if !d.is_valid() {
                register_error(OperandKind::Register(d))
            } else if !fits(b) {
                register_error(b)
            } else {
                Lowering::Code(f(d, b))
            },
            a => type_error(a),
        }
    }
}

/// An instruction of three operands of any kind: `f` of their kinds.
pub open spec fn with_three(
    i: Instruction,
    f: spec_fn(OperandKind, OperandKind, OperandKind) -> Seq<u8>,
) -> Lowering {
    if i.count() != 3 {
        count_error(3, i)
    } else {
        let a = i.operand1.unwrap().kind;
        let b = i.operand2.unwrap().kind;
        let c = i.operand3.unwrap().kind;
        if !fits(a) {
            register_error(a)
        } else if !fits(b) {
            register_error(b)
        } else if !fits(c) {
            register_error(c)
        } else {
            Lowering::Code(f(a, b, c))
        }
    }
}

/// An instruction of a destination register and two sources: `f` of them.
pub open spec fn with_destination_two(
    i: Instruction,
    f: spec_fn(Register, OperandKind, OperandKind) -> Seq<u8>,
) -> Lowering {
    if i.count() != 3 {
        count_error(3, i)
    } else {
        let b = i.operand2.unwrap().kind;
        let c = i.operand3.unwrap().kind;
        match i.operand1.unwrap().kind {
            OperandKind::Register(d) => if !d.is_valid() {
                register_error(OperandKind::Register(d))
            } else if !fits(b) {
                register_error(b)
            } else if !fits(c) {
                register_error(c)
            } else {
                Lowering::Code(f(d, b, c))
            },
            a => type_error(a),
        }
    }
}

/// `MOVE`: exactly a register destination and a source in the first two
/// slots.
pub open spec fn lower_move(cg: JITCodegen, i: Instruction) -> Lowering {
    match (i.operand1, i.operand2, i.operand3) {
        (Some(a), Some(b), None) => match a.kind {
            OperandKind::Register(d) => if !d.is_valid() {
                register_error(OperandKind::Register(d))
            } else if !fits(b.kind) {
                register_error(b.kind)
            } else {
                Lowering::Code(rax_from(cg, b.kind) + rax_to(cg, d))
            },
            k => type_error(k),
        },
        _ => count_error(2, i),
    }
}

/// An integer operation of a destination and two sources, whose operation
/// on `RAX` and `RCX` is `operation`.
pub open spec fn lower_binary(cg: JITCodegen, i: Instruction, operation: Seq<u8>) -> Lowering {
    with_destination_two(
        i,
        |d: Register, l: OperandKind, r: OperandKind|
            integer_operands(cg, l, r) + operation + rax_to(cg, d),
    )
}

/// An integer comparison whose `setcc al` is `condition`.
pub open spec fn lower_compare(cg: JITCodegen, i: Instruction, condition: Seq<u8>) -> Lowering {
    with_destination_two(
        i,
        |d: Register, l: OperandKind, r: OperandKind|
            integer_operands(cg, l, r) + seq![0x48u8, 0x39u8, 0xC8u8] + condition + seq![
                0x0Fu8,
                0xB6u8,
                0xC0u8,
            ] + rax_to(cg, d),
    )
}

/// An integer operation of a destination and one source, whose operation
/// on `RAX` is `operation`.
pub open spec fn lower_unary(cg: JITCodegen, i: Instruction, operation: Seq<u8>) -> Lowering {
    with_destination_one(
        i,
        |d: Register, s: OperandKind| rax_from(cg, s) + operation + rax_to(cg, d),
    )
}

/// A floating-point operation whose scalar double operation on `XMM0` and
/// `XMM1` is `operation`.
pub open spec fn lower_float(cg: JITCodegen, i: Instruction, operation: Seq<u8>) -> Lowering {
    with_destination_two(
        i,
        |d: Register, l: OperandKind, r: OperandKind|
            float_operands(cg, l, r) + operation + movq_rax_xmm0() + rax_to(cg, d),
    )
}

/// `FREM`, computed with the x87 partial remainder.
pub open spec fn lower_frem(cg: JITCodegen, i: Instruction) -> Lowering {
    with_destination_two(
        i,
        |d: Register, l: OperandKind, r: OperandKind|
            float_operands(cg, l, r) + frem_body() + rax_to(cg, d),
    )
}

/// `FNEG`.
pub open spec fn lower_fneg(cg: JITCodegen, i: Instruction) -> Lowering {
    with_destination_one(
        i,
        |d: Register, s: OperandKind| rax_from(cg, s) + fneg_body() + rax_to(cg, d),
    )
}

/// A floating-point comparison whose condition after `ucomisd` is
/// `condition`.
pub open spec fn lower_fcompare(cg: JITCodegen, i: Instruction, condition: Seq<u8>) -> Lowering {
    with_destination_two(
        i,
        |d: Register, l: OperandKind, r: OperandKind|
            float_operands(cg, l, r) + seq![0x66u8, 0x0Fu8, 0x2Eu8, 0xC1u8] + condition + seq![
                0x0Fu8,
                0xB6u8,
                0xC0u8,
            ] + rax_to(cg, d),
    )
}

/// `LOAD*`.
pub open spec fn lower_load(cg: JITCodegen, ctx: GenContext, i: Instruction) -> Lowering {
    with_destination_one(
        i,
        |d: Register, s: OperandKind|
            rax_from(cg, s) + memory_pointer(ctx) + load_access(i.opcode) + rax_to(cg, d),
    )
}

/// `STORE*`.
pub open spec fn lower_store(cg: JITCodegen, ctx: GenContext, i: Instruction) -> Lowering {
    with_two(
        i,
        |a: OperandKind, v: OperandKind|
            rax_from(cg, a) + rcx_from(cg, v) + memory_pointer(ctx) + store_access(i.opcode),
    )
}

/// `JMP` at `start`.
pub open spec fn lower_jmp(cg: JITCodegen, i: Instruction, start: int, t: Targets) -> Lowering {
    with_one(
        i,
        |a: OperandKind|
            match a {
                OperandKind::Immediate(v) => seq![0xE9u8] + rel32(
                    start + 1,
                    target_offset(t, (v as usize) as int),
                ),
                OperandKind::Register(_) => rax_from(cg, a) + dynamic_jump(t, start + 10),
            },
    )
}

/// `JZ` or `JNZ` at `start`: the jump is taken when the condition is zero
/// for `JZ`, nonzero for `JNZ`.
pub open spec fn lower_branch(cg: JITCodegen, i: Instruction, start: int, t: Targets) -> Lowering {
    let jz = i.opcode == OperationCode::JZ;
    with_two(
        i,
        |c: OperandKind, a: OperandKind|
            match a {
                OperandKind::Immediate(v) => rax_from(cg, c) + seq![0x48u8, 0x85u8, 0xC0u8] + (if jz {
                    seq![0x0Fu8, 0x84u8]
                } else {
                    seq![0x0Fu8, 0x85u8]
                }) + rel32(start + 15, target_offset(t, (v as usize) as int)),
                OperandKind::Register(_) => {
                    let skip = start + rcx_from(cg, c).len() + 15;
                    rcx_from(cg, c) + rax_from(cg, a) + seq![0x48u8, 0x85u8, 0xC9u8] + (if jz {
                        seq![0x0Fu8, 0x85u8]
                    } else {
                        seq![0x0Fu8, 0x84u8]
                    }) + rel32(skip, skip + 39) + dynamic_jump(t, skip + 4)
                },
            },
    )
}

/// `CALL` at `start`, the `index`-th instruction: pushes `index + 1`.
pub open spec fn lower_call(
    cg: JITCodegen,
    ctx: GenContext,
    i: Instruction,
    index: int,
    start: int,
    t: Targets,
) -> Lowering {
    let push = call_with_two(ctx.convention, cg.stack_address(), (index + 1) as u64, ctx.call_push);
    with_one(
        i,
        |a: OperandKind|
            match a {
                OperandKind::Immediate(v) => push + seq![0xE9u8] + rel32(
                    start + 41,
                    target_offset(t, (v as usize) as int),
                ),
                OperandKind::Register(_) => rax_from(cg, a) + seq![0x50u8] + push + seq![0x58u8]
                    + dynamic_jump(t, start + 52),
            },
    )
}

/// `RET` at `start`.
pub open spec fn lower_ret(cg: JITCodegen, ctx: GenContext, i: Instruction, start: int, t: Targets) -> Lowering {
    if i.count() != 0 {
        count_error(0, i)
    } else {
        Lowering::Code(
            call_with_two(ctx.convention, cg.stack_address(), ctx.scratch_addr, ctx.call_pop)
                + seq![0x84u8, 0xC0u8] + seq![0x0Fu8, 0x84u8] + rel32(start + 44, t.error_stub)
                + seq![0x48u8, 0xA1u8] + u64_le_bytes(ctx.scratch_addr) + dynamic_jump(t, start + 58),
        )
    }
}

/// `VMCALL` at `start`.
pub open spec fn lower_vmcall(cg: JITCodegen, ctx: GenContext, i: Instruction, start: int, t: Targets) -> Lowering {
    with_three(
        i,
        |s: OperandKind, a: OperandKind, n: OperandKind|
            {
                let call = vmcall_call(cg, ctx, s, a, n);
                call + seq![0x48u8, 0x85u8, 0xC0u8] + seq![0x0Fu8, 0x85u8] + rel32(
                    start + call.len() + 5,
                    t.epilogue,
                )
            },
    )
}

/// Whether the opcode transfers control (its lowering depends on where it
/// lies and on its targets).
pub open spec fn is_control(op: OperationCode) -> bool {
    op == OperationCode::JMP || op == OperationCode::JZ || op == OperationCode::JNZ || op
        == OperationCode::CALL || op == OperationCode::RET || op == OperationCode::VMCALL
}

/// The lowering of an instruction that does not transfer control.
pub open spec fn lower_data(cg: JITCodegen, ctx: GenContext, i: Instruction) -> Lowering {
    let op = i.opcode;
    match op {
        OperationCode::NOP => Lowering::Code(seq![0x90u8]),
        OperationCode::MOVE => lower_move(cg, i),
        OperationCode::IADD | OperationCode::ISUB | OperationCode::IMUL | OperationCode::SDIV
        | OperationCode::UDIV | OperationCode::SREM | OperationCode::UREM | OperationCode::AND
        | OperationCode::OR | OperationCode::XOR | OperationCode::LSL | OperationCode::LSR
        | OperationCode::SAR => lower_binary(cg, i, integer_op(op)),
        OperationCode::INEG => lower_unary(cg, i, seq![0x48u8, 0xF7u8, 0xD8u8]),
        OperationCode::NOT => lower_unary(cg, i, seq![0x48u8, 0xF7u8, 0xD0u8]),
        OperationCode::IEQ | OperationCode::INE | OperationCode::SLT | OperationCode::SLE
        | OperationCode::SGT | OperationCode::SGE | OperationCode::ULT | OperationCode::ULE
        | OperationCode::UGT | OperationCode::UGE => lower_compare(cg, i, setcc(op)),
        OperationCode::FADD | OperationCode::FSUB | OperationCode::FMUL
        | OperationCode::FDIV => lower_float(cg, i, float_op(op)),
        OperationCode::FREM => lower_frem(cg, i),
        OperationCode::FNEG => lower_fneg(cg, i),
        OperationCode::FEQ | OperationCode::FNE | OperationCode::FLT | OperationCode::FLE
        | OperationCode::FGT | OperationCode::FGE => lower_fcompare(cg, i, float_condition(op)),
        OperationCode::LOAD8 | OperationCode::LOAD16 | OperationCode::LOAD32
        | OperationCode::LOAD64 => lower_load(cg, ctx, i),
        _ => lower_store(cg, ctx, i),
    }
}

/// The lowering of an instruction that transfers control, the `index`-th
/// of the program, when its bytes start at `start` and the jump targets are
/// `t`.
pub open spec fn lower_control(
    cg: JITCodegen,
    ctx: GenContext,
    i: Instruction,
    index: int,
    start: int,
    t: Targets,
) -> Lowering {
    match i.opcode {
        OperationCode::JMP => lower_jmp(cg, i, start, t),
        OperationCode::JZ | OperationCode::JNZ => lower_branch(cg, i, start, t),
        OperationCode::CALL => lower_call(cg, ctx, i, index, start, t),
        OperationCode::RET => lower_ret(cg, ctx, i, start, t),
        _ => lower_vmcall(cg, ctx, i, start, t),
    }
}

/// The lowering of the instruction `i`, the `index`-th of the program, when
/// its bytes start at offset `start` and the jump targets are `t`.
#[verifier::opaque]
pub open spec fn lower(
    cg: JITCodegen,
    ctx: GenContext,
    i: Instruction,
    index: int,
    start: int,
    t: Targets,
) -> Lowering {
    if is_control(i.opcode) {
        lower_control(cg, ctx, i, index, start, t)
    } else {
        lower_data(cg, ctx, i)
    }
}

/// The bytes of a lowering that succeeds.
pub open spec fn code_of(l: Lowering) -> Seq<u8> {
    match l {
        Lowering::Code(c) => c,
        _ => Seq::empty(),
    }
}

// ====== The whole program ======

/// Placeholder targets, for measuring the lowering of an instruction.
pub open spec fn blank() -> Targets {
    Targets { offsets: Seq::empty(), epilogue: 0, error_stub: 0, table_base: 0, table_len: 0 }
}

/// The number of bytes that the lowering of `i` takes (wherever it lies
/// and whatever its targets are).
pub open spec fn piece_len(cg: JITCodegen, ctx: GenContext, i: Instruction) -> nat {
    code_of(lower(cg, ctx, i, 0, 0, blank())).len()
}

/// The first instruction among the first `k` of `program` that cannot be
/// lowered: its error, or its panic; `None` when all can.
pub open spec fn first_failure(cg: JITCodegen, ctx: GenContext, program: Seq<Instruction>, k: nat) -> Option<Lowering>
    decreases k,
{
    if k == 0 {
        None
    } else {
        match first_failure(cg, ctx, program, (k - 1) as nat) {
            Some(l) => Some(l),
            None => match lower(cg, ctx, program[k - 1], k - 1, 0, blank()) {
                Lowering::Code(_) => None,
                l => Some(l),
            },
        }
    }
}

/// Where the `k`-th instruction starts: the lengths of those before it.
pub open spec fn start_of(cg: JITCodegen, ctx: GenContext, program: Seq<Instruction>, k: nat) -> int
    decreases k,
{
    if k == 0 {
        0
    } else {
        start_of(cg, ctx, program, (k - 1) as nat) + piece_len(cg, ctx, program[k - 1])
    }
}

/// Whether the instruction jumps to a target held in a register (known
/// only when the code runs, which needs the address table).
pub open spec fn register_target(i: Instruction) -> bool {
    match i.opcode {
        OperationCode::JMP | OperationCode::CALL => i.operand1 matches Some(o) && o.kind is Register,
        OperationCode::JZ | OperationCode::JNZ => i.operand2 matches Some(o) && o.kind is Register,
        _ => false,
    }
}

/// Whether the program has a `RET`.
pub open spec fn has_ret(program: Seq<Instruction>) -> bool {
    exists|k: int| 0 <= k < program.len() && #[trigger] program[k].opcode == OperationCode::RET
}

/// Whether the program has a `VMCALL`.
pub open spec fn has_vmcall(program: Seq<Instruction>) -> bool {
    exists|k: int| 0 <= k < program.len() && #[trigger] program[k].opcode == OperationCode::VMCALL
}

/// Whether the program needs the address table: a jump to a register
/// target, or a `RET`.
pub open spec fn needs_table(program: Seq<Instruction>) -> bool {
    has_ret(program) || exists|k: int| 0 <= k < program.len() && register_target(#[trigger] program[k])
}

/// Whether the program needs a jump to the epilogue after its last
/// instruction: it has a `RET` (whose error stub follows), and its last
/// instruction may fall through.
pub open spec fn closing_jump(program: Seq<Instruction>) -> bool {
    &&& has_ret(program)
    &&& program.len() > 0
    &&& !(program.last().opcode == OperationCode::JMP || program.last().opcode == OperationCode::CALL
        || program.last().opcode == OperationCode::RET)
}

/// The error stub of `RET` on an empty call stack: `mov rax,
/// EMPTY_CALL_STACK; mov [<status cell>], rax`, then on into the epilogue.
pub open spec fn error_stub(ctx: GenContext) -> Seq<u8> {
    seq![0x48u8, 0xC7u8, 0xC0u8] + crate::bytes::u32_le_bytes(1) + seq![0x48u8, 0xA3u8] + u64_le_bytes(
        ctx.out,
    )
}

/// Where the instructions end.
pub open spec fn body_end(cg: JITCodegen, ctx: GenContext, program: Seq<Instruction>) -> int {
    start_of(cg, ctx, program, program.len())
}

/// Where the error stub lies (right after the closing jump, if any).
pub open spec fn stub_at(cg: JITCodegen, ctx: GenContext, program: Seq<Instruction>) -> int {
    body_end(cg, ctx, program) + if closing_jump(program) {
        5int
    } else {
        0int
    }
}

/// Where the epilogue (`ret`) lies.
pub open spec fn epilogue_at(cg: JITCodegen, ctx: GenContext, program: Seq<Instruction>) -> int {
    stub_at(cg, ctx, program) + if has_ret(program) {
        17int
    } else {
        0int
    }
}

/// The `nop`s that align the address table to 8 bytes.
pub open spec fn padding(cg: JITCodegen, ctx: GenContext, program: Seq<Instruction>) -> nat {
    if needs_table(program) {
        ((8 - (epilogue_at(cg, ctx, program) + 1) % 8) % 8) as nat
    } else {
        0
    }
}

/// Where the address table lies.
pub open spec fn table_at(cg: JITCodegen, ctx: GenContext, program: Seq<Instruction>) -> int {
    epilogue_at(cg, ctx, program) + 1 + padding(cg, ctx, program)
}

/// The targets of the program's jumps, once every instruction has its
/// place.
pub open spec fn resolved(cg: JITCodegen, ctx: GenContext, program: Seq<Instruction>) -> Targets {
    Targets {
        offsets: Seq::new(program.len(), |k: int| start_of(cg, ctx, program, k as nat)),
        epilogue: epilogue_at(cg, ctx, program),
        error_stub: stub_at(cg, ctx, program),
        table_base: (ctx.code_base + table_at(cg, ctx, program)) as u64,
        table_len: program.len() as u64,
    }
}

/// The first `k` instructions, lowered in place with the resolved targets.
pub open spec fn body(cg: JITCodegen, ctx: GenContext, program: Seq<Instruction>, k: nat) -> Seq<u8>
    decreases k,
{
    if k == 0 {
        Seq::empty()
    } else {
        body(cg, ctx, program, (k - 1) as nat) + code_of(
            lower(
                cg,
                ctx,
                program[k - 1],
                k - 1,
                start_of(cg, ctx, program, (k - 1) as nat),
                resolved(cg, ctx, program),
            ),
        )
    }
}

/// The first `k` entries of the address table: the absolute address of
/// each instruction.
pub open spec fn table(cg: JITCodegen, ctx: GenContext, program: Seq<Instruction>, k: nat) -> Seq<u8>
    decreases k,
{
    if k == 0 {
        Seq::empty()
    } else {
        table(cg, ctx, program, (k - 1) as nat) + u64_le_bytes(
            (ctx.code_base + start_of(cg, ctx, program, (k - 1) as nat)) as u64,
        )
    }
}

/// The machine code of a program: its instructions, the closing jump, the
/// error stub, the epilogue, then the aligned address table, each where
/// the program needs it.
pub open spec fn generated(cg: JITCodegen, ctx: GenContext, program: Seq<Instruction>) -> Seq<u8> {
    let n = program.len();
    body(cg, ctx, program, n) + (if closing_jump(program) {
        seq![0xE9u8] + rel32(body_end(cg, ctx, program) + 1, epilogue_at(cg, ctx, program))
    } else {
        Seq::empty()
    }) + (if has_ret(program) {
        error_stub(ctx)
    } else {
        Seq::empty()
    }) + seq![0xC3u8] + Seq::new(padding(cg, ctx, program), |k: int| 0x90u8) + (if needs_table(
        program,
    ) {
        table(cg, ctx, program, n)
    } else {
        Seq::empty()
    })
}

/// The lengths of the pieces that instructions are made of.
proof fn lemma_piece_lengths(cg: JITCodegen, ctx: GenContext, k: OperandKind, t: Targets, start: int)
    ensures
        rax_from(cg, k).len() == 10,
        rcx_from(cg, k).len() == if k is Register {
            13nat
        } else {
            10nat
        },
        forall|v: u64| #[trigger] u64_le_bytes(v).len() == 8,
        forall|p: int, q: int| #[trigger] rel32(p, q).len() == 4,
        dynamic_jump(t, start).len() == 35,
        forall|c: CallingConvention, a: u64, b: u64, f: u64| #[trigger] call_with_two(c, a, b, f).len() == 40,
{
}

/// The facts about a lowering that generating needs: whether it succeeds,
/// and how many bytes it takes, do not depend on where it lies or on its
/// targets.
pub open spec fn same_shape(l: Lowering, m: Lowering, len: nat) -> bool {
    &&& (l is Code) == (m is Code)
    &&& !(l is Code) ==> l == m
    &&& code_of(l).len() == len
    &&& code_of(m).len() == len
}

/// Whether an instruction can be lowered, and the length of its bytes, do
/// not depend on its index, where it lies or its targets; no instruction
/// takes more than 100 bytes.
proof fn lemma_lower_shape(
    cg: JITCodegen,
    ctx: GenContext,
    i: Instruction,
    index: int,
    start: int,
    t: Targets,
)
    ensures
        same_shape(lower(cg, ctx, i, index, start, t), lower(cg, ctx, i, 0, 0, blank()), piece_len(cg, ctx, i)),
        piece_len(cg, ctx, i) <= 100,
{
    reveal(lower);
    match i.opcode {
        OperationCode::JMP => lemma_jmp_shape(cg, ctx, i, start, t),
        OperationCode::JZ | OperationCode::JNZ => lemma_branch_shape(cg, ctx, i, start, t),
        OperationCode::CALL => lemma_call_shape(cg, ctx, i, index, start, t),
        OperationCode::RET => lemma_ret_shape(cg, ctx, i, start, t),
        OperationCode::VMCALL => lemma_vmcall_shape(cg, ctx, i, start, t),
        _ => lemma_data_len(cg, ctx, i),
    }
}

/// No instruction that does not transfer control takes more than 100
/// bytes.
proof fn lemma_data_len(cg: JITCodegen, ctx: GenContext, i: Instruction)
    ensures
        code_of(lower_data(cg, ctx, i)).len() <= 100,
{
    let b = if i.operand2 is Some { i.operand2.unwrap().kind } else { OperandKind::Immediate(0) };
    let c = if i.operand3 is Some { i.operand3.unwrap().kind } else { OperandKind::Immediate(0) };
    lemma_piece_lengths(cg, ctx, b, blank(), 0);
    lemma_piece_lengths(cg, ctx, c, blank(), 0);
    let op = i.opcode;
    match op {
        OperationCode::NOP | OperationCode::MOVE | OperationCode::INEG | OperationCode::NOT
        | OperationCode::FREM | OperationCode::FNEG => {},
        OperationCode::IADD | OperationCode::ISUB | OperationCode::IMUL | OperationCode::SDIV
        | OperationCode::UDIV | OperationCode::SREM | OperationCode::UREM | OperationCode::AND
        | OperationCode::OR | OperationCode::XOR | OperationCode::LSL | OperationCode::LSR
        | OperationCode::SAR => {
            assert(integer_op(op).len() <= 8);
        },
        OperationCode::IEQ | OperationCode::INE | OperationCode::SLT | OperationCode::SLE
        | OperationCode::SGT | OperationCode::SGE | OperationCode::ULT | OperationCode::ULE
        | OperationCode::UGT | OperationCode::UGE => {
            assert(setcc(op).len() == 3);
        },
        OperationCode::FADD | OperationCode::FSUB | OperationCode::FMUL | OperationCode::FDIV => {
            assert(float_op(op).len() == 4);
        },
        OperationCode::FEQ | OperationCode::FNE | OperationCode::FLT | OperationCode::FLE
        | OperationCode::FGT | OperationCode::FGE => {
            assert(float_condition(op).len() <= 8);
        },
        OperationCode::LOAD8 | OperationCode::LOAD16 | OperationCode::LOAD32 | OperationCode::LOAD64 => {
            assert(load_access(op).len() <= 3);
        },
        _ => {
            assert(store_access(op).len() <= 3);
        },
    }
}

proof fn lemma_jmp_shape(cg: JITCodegen, ctx: GenContext, i: Instruction, start: int, t: Targets)
    requires
        i.opcode == OperationCode::JMP,
    ensures
        same_shape(lower_jmp(cg, i, start, t), lower_jmp(cg, i, 0, blank()), code_of(lower_jmp(cg, i, 0, blank())).len()),
        code_of(lower_jmp(cg, i, 0, blank())).len() <= 100,
{
    if i.count() == 1 && i.operand1 is Some {
        let a = i.operand1.unwrap().kind;
        lemma_piece_lengths(cg, ctx, a, t, start + 10);
        lemma_piece_lengths(cg, ctx, a, blank(), 10);
    }
}

proof fn lemma_branch_shape(cg: JITCodegen, ctx: GenContext, i: Instruction, start: int, t: Targets)
    requires
        i.opcode == OperationCode::JZ || i.opcode == OperationCode::JNZ,
    ensures
        same_shape(lower_branch(cg, i, start, t), lower_branch(cg, i, 0, blank()), code_of(lower_branch(cg, i, 0, blank())).len()),
        code_of(lower_branch(cg, i, 0, blank())).len() <= 100,
{
    if i.count() == 2 && i.operand1 is Some && i.operand2 is Some {
        let c = i.operand1.unwrap().kind;
        let a = i.operand2.unwrap().kind;
        if fits(a) && fits(c) {
            lemma_piece_lengths(cg, ctx, c, t, start);
            match a {
                OperandKind::Immediate(v) => {
                    assert(code_of(lower_branch(cg, i, start, t)).len() == 19);
                    assert(code_of(lower_branch(cg, i, 0, blank())).len() == 19);
                },
                OperandKind::Register(_) => {
                    let n = rcx_from(cg, c).len();
                    let skip: int = start + n + 15;
                    let skip0: int = n as int + 15;
                    lemma_piece_lengths(cg, ctx, c, t, skip + 4);
                    lemma_piece_lengths(cg, ctx, c, blank(), skip0 + 4);
                    assert(code_of(lower_branch(cg, i, start, t)).len() == n + 54);
                    assert(code_of(lower_branch(cg, i, 0, blank())).len() == n + 54);
                },
            }
        }
    }
}

proof fn lemma_call_shape(cg: JITCodegen, ctx: GenContext, i: Instruction, index: int, start: int, t: Targets)
    requires
        i.opcode == OperationCode::CALL,
    ensures
        same_shape(lower_call(cg, ctx, i, index, start, t), lower_call(cg, ctx, i, 0, 0, blank()), code_of(lower_call(cg, ctx, i, 0, 0, blank())).len()),
        code_of(lower_call(cg, ctx, i, 0, 0, blank())).len() <= 100,
{
    if i.count() == 1 && i.operand1 is Some {
        let a = i.operand1.unwrap().kind;
        lemma_piece_lengths(cg, ctx, a, t, start + 52);
        lemma_piece_lengths(cg, ctx, a, blank(), 52);
    }
}

proof fn lemma_ret_shape(cg: JITCodegen, ctx: GenContext, i: Instruction, start: int, t: Targets)
    requires
        i.opcode == OperationCode::RET,
    ensures
        same_shape(lower_ret(cg, ctx, i, start, t), lower_ret(cg, ctx, i, 0, blank()), code_of(lower_ret(cg, ctx, i, 0, blank())).len()),
        code_of(lower_ret(cg, ctx, i, 0, blank())).len() <= 100,
{
    lemma_piece_lengths(cg, ctx, OperandKind::Immediate(0), t, start + 58);
    lemma_piece_lengths(cg, ctx, OperandKind::Immediate(0), blank(), 58);
}

proof fn lemma_vmcall_shape(cg: JITCodegen, ctx: GenContext, i: Instruction, start: int, t: Targets)
    requires
        i.opcode == OperationCode::VMCALL,
    ensures
        same_shape(lower_vmcall(cg, ctx, i, start, t), lower_vmcall(cg, ctx, i, 0, blank()), code_of(lower_vmcall(cg, ctx, i, 0, blank())).len()),
        code_of(lower_vmcall(cg, ctx, i, 0, blank())).len() <= 100,
{
    if i.count() == 3 {
        let a = i.operand1.unwrap().kind;
        let b = i.operand2.unwrap().kind;
        let c = i.operand3.unwrap().kind;
        lemma_vmcall_call_len(cg, ctx, a, b, c);
    }
}

/// The call of the `VMCALL` trampoline takes 79 bytes (System V) or 84
/// (Windows).
proof fn lemma_vmcall_call_len(cg: JITCodegen, ctx: GenContext, a: OperandKind, b: OperandKind, c: OperandKind)
    ensures
        vmcall_call(cg, ctx, a, b, c).len() == if ctx.convention is SystemV {
            79nat
        } else {
            84nat
        },
{
    lemma_piece_lengths(cg, ctx, a, blank(), 0);
    lemma_piece_lengths(cg, ctx, b, blank(), 0);
    lemma_piece_lengths(cg, ctx, c, blank(), 0);
}

/// Whether `r` is what the lowering `l` gives (a panic allows anything:
/// the generator never reaches it).
pub open spec fn produced(r: Result<Vec<u8>, VMError>, l: Lowering) -> bool {
    match l {
        Lowering::Code(c) => r matches Ok(v) && v@ == c,
        Lowering::Error(e) => r matches Err(x) && x.kind == e,
        Lowering::Panic => true,
    }
}

/// Checks that an operand names an existing register, if it is one.
pub(crate) fn check_register(k: OperandKind) -> (r: Result<(), VMError>)
    ensures
        fits(k) ==> r is Ok,
        !fits(k) ==> (r matches Err(e) && Lowering::Error(e.kind) == register_error(k)),
{
    match k {
        OperandKind::Register(register) => if register.0 > Register::MAX_INDEX {
            Err(VMError::new(VMErrorKind::InvalidRegister { got: register.0 }))
        } else {
            Ok(())
        },
        OperandKind::Immediate(_) => Ok(()),
    }
}

// ====== Emitting ======

/// Appends `bytes` to `code`.
pub(crate) fn emit(code: &mut Vec<u8>, bytes: &[u8])
    ensures
        final(code)@ == old(code)@ + bytes@,
{
    let n = bytes.len();
    let mut i: usize = 0;
    while i < n
        invariant
            n == bytes@.len(),
            i <= n,
            code@ == old(code)@ + bytes@.take(i as int),
        decreases n - i,
    {
        code.push(bytes[i]);
        i = i + 1;
        assert(bytes@.take(i as int) =~= bytes@.take((i - 1) as int).push(bytes@[i - 1]));
    }
    assert(bytes@.take(n as int) =~= bytes@);
}

/// Appends the eight little-endian bytes of `v` to `code`.
pub(crate) fn emit_u64(code: &mut Vec<u8>, v: u64)
    ensures
        final(code)@ == old(code)@ + u64_le_bytes(v),
{
    emit(code, &crate::bytes::u64_to_le_bytes(v));
}

impl JITCodegen {
    /// `mov rax, <immediate>`.
    fn mov_rax_immediate(&self, code: &mut Vec<u8>, value: u64)
        ensures
            final(code)@ == old(code)@ + rax_from(*self, OperandKind::Immediate(value)),
    {
        emit(code, &[0x48, 0xB8]);
        emit_u64(code, value);
    }

    /// `mov rax, [<cell of register>]`.
    fn mov_rax_register(&self, code: &mut Vec<u8>, register: usize)
        requires
            register < 255,
        ensures
            final(code)@ == old(code)@ + rax_from(
                *self,
                OperandKind::Register(Register(register as u8)),
            ),
    {
        emit(code, &[0x48, 0xA1]);
        emit_u64(code, self.register(register));
    }

    /// `mov rcx, <immediate>`.
    fn mov_rcx_immediate(&self, code: &mut Vec<u8>, value: u64)
        ensures
            final(code)@ == old(code)@ + rcx_from(*self, OperandKind::Immediate(value)),
    {
        emit(code, &[0x48, 0xB9]);
        emit_u64(code, value);
    }

    /// `mov rdx, <cell of register>; mov rcx, [rdx]`: `RAX` keeps the other
    /// operand.
    fn mov_rcx_register(&self, code: &mut Vec<u8>, register: usize)
        requires
            register < 255,
        ensures
            final(code)@ == old(code)@ + rcx_from(
                *self,
                OperandKind::Register(Register(register as u8)),
            ),
    {
        emit(code, &[0x48, 0xBA]);
        emit_u64(code, self.register(register));
        emit(code, &[0x48, 0x8B, 0x0A]);
    }

    /// `mov [<cell of register>], rax`.
    fn mov_absolute_rax(&self, code: &mut Vec<u8>, register: usize)
        requires
            register < 255,
        ensures
            final(code)@ == old(code)@ + rax_to(*self, Register(register as u8)),
    {
        emit(code, &[0x48, 0xA3]);
        emit_u64(code, self.register(register));
    }

    /// Loads an operand (the register's contents or the immediate) into
    /// `RAX`.
    fn mov_rax_operand(&self, code: &mut Vec<u8>, operand: OperandKind)
        requires
            fits(operand),
        ensures
            final(code)@ == old(code)@ + rax_from(*self, operand),
    {
        match operand {
            OperandKind::Register(register) => self.mov_rax_register(code, register.0 as usize),
            OperandKind::Immediate(value) => self.mov_rax_immediate(code, value),
        }
    }

    /// Loads an operand into `RCX`.
    fn mov_rcx_operand(&self, code: &mut Vec<u8>, operand: OperandKind)
        requires
            fits(operand),
        ensures
            final(code)@ == old(code)@ + rcx_from(*self, operand),
    {
        match operand {
            OperandKind::Register(register) => self.mov_rcx_register(code, register.0 as usize),
            OperandKind::Immediate(value) => self.mov_rcx_immediate(code, value),
        }
    }

    /// The two integer sources into `RAX` and `RCX`.
    fn load_integer_operands(&self, code: &mut Vec<u8>, lhs: OperandKind, rhs: OperandKind)
        requires
            fits(lhs),
            fits(rhs),
        ensures
            final(code)@ == old(code)@ + integer_operands(*self, lhs, rhs),
    {
        self.mov_rax_operand(code, lhs);
        self.mov_rcx_operand(code, rhs);
    }

    /// Stores `RAX` into the destination register.
    fn store_integer_result(&self, code: &mut Vec<u8>, destination: Register)
        requires
            destination.is_valid(),
        ensures
            final(code)@ == old(code)@ + rax_to(*self, destination),
    {
        self.mov_absolute_rax(code, destination.0 as usize);
    }

    /// `movq xmm0, rax`.
    fn movq_xmm0_rax(&self, code: &mut Vec<u8>)
        ensures
            final(code)@ == old(code)@ + movq_xmm0_rax(),
    {
        emit(code, &[0x66, 0x48, 0x0F, 0x6E, 0xC0]);
    }

    /// `movq xmm1, rcx`.
    fn movq_xmm1_rcx(&self, code: &mut Vec<u8>)
        ensures
            final(code)@ == old(code)@ + movq_xmm1_rcx(),
    {
        emit(code, &[0x66, 0x48, 0x0F, 0x6E, 0xC9]);
    }

    /// `movq rax, xmm0`.
    fn movq_rax_xmm0(&self, code: &mut Vec<u8>)
        ensures
            final(code)@ == old(code)@ + movq_rax_xmm0(),
    {
        emit(code, &[0x66, 0x48, 0x0F, 0x7E, 0xC0]);
    }

    /// `movq rcx, xmm1`.
    fn movq_rcx_xmm1(&self, code: &mut Vec<u8>)
        ensures
            final(code)@ == old(code)@ + movq_rcx_xmm1(),
    {
        emit(code, &[0x66, 0x48, 0x0F, 0x7E, 0xC9]);
    }

    /// The two floating-point sources into `XMM0` and `XMM1`, through the
    /// integer registers.
    fn load_float_operands(&self, code: &mut Vec<u8>, lhs: OperandKind, rhs: OperandKind)
        requires
            fits(lhs),
            fits(rhs),
        ensures
            final(code)@ == old(code)@ + float_operands(*self, lhs, rhs),
    {
        self.mov_rax_operand(code, lhs);
        self.movq_xmm0_rax(code);
        self.mov_rcx_operand(code, rhs);
        self.movq_xmm1_rcx(code);
    }

    /// Stores `XMM0` into the destination register, through `RAX`.
    fn store_float_result(&self, code: &mut Vec<u8>, destination: Register)
        requires
            destination.is_valid(),
        ensures
            final(code)@ == old(code)@ + movq_rax_xmm0() + rax_to(*self, destination),
    {
        self.movq_rax_xmm0(code);
        self.mov_absolute_rax(code, destination.0 as usize);
    }
}

impl JITCodegen {
    /// `NOP`.
    fn nop(&self) -> (r: Result<Vec<u8>, VMError>)
        ensures
            produced(r, Lowering::Code(seq![0x90u8])),
    {
        let mut code: Vec<u8> = Vec::new();
        code.push(0x90);
        Ok(code)
    }

    /// `MOVE <register>, <source>`: the source into `RAX`, then `RAX` into
    /// the destination (x64 has no memory-to-memory `mov`).
    fn mov(&self, instruction: &Instruction) -> (r: Result<Vec<u8>, VMError>)
        requires
            !(lower_move(*self, *instruction) is Panic),
        ensures
            produced(r, lower_move(*self, *instruction)),
    {
        let mut code: Vec<u8> = Vec::new();
        match (instruction.operand1, instruction.operand2, instruction.operand3) {
            (Some(op1), Some(op2), None) => match op1.kind {
                OperandKind::Register(r) => {
                    check_register(op1.kind)?;
                    check_register(op2.kind)?;
                    self.mov_rax_operand(&mut code, op2.kind);
                    self.mov_absolute_rax(&mut code, r.0 as usize);
                    Ok(code)
                },
                got => Err(
                    VMError::new(
                        VMErrorKind::IncorrectTypeOfOperand {
                            expected: OperandKind::Register(Register(0)),
                            got,
                        },
                    ),
                ),
            },
            _ => {
                let got = instruction.operand_count() as u8;
                Err(VMError::new(VMErrorKind::IncorrectNumberOfOperands { expected: 2, got }))
            },
        }
    }

    /// The destination register and the two sources of an instruction.
    pub(crate) fn destination_and_two(&self, instruction: &Instruction) -> (r: Result<
        (Register, OperandKind, OperandKind),
        VMError,
    >)
        ensures
            instruction.count() != 3 ==> (r matches Err(e) && Lowering::Error(e.kind) == count_error(
                3,
                *instruction,
            )),
            instruction.count() == 3 ==> match instruction.operand1.unwrap().kind {
                OperandKind::Register(d) => {
                    let b = instruction.operand2.unwrap().kind;
                    let c = instruction.operand3.unwrap().kind;
                    if !d.is_valid() {
                        r matches Err(e) && Lowering::Error(e.kind) == register_error(OperandKind::Register(d))
                    } else if !fits(b) {
                        r matches Err(e) && Lowering::Error(e.kind) == register_error(b)
                    } else if !fits(c) {
                        r matches Err(e) && Lowering::Error(e.kind) == register_error(c)
                    } else {
                        r == Ok::<_, VMError>((d, b, c))
                    }
                },
                a => r matches Err(e) && Lowering::Error(e.kind) == type_error(a),
            },
    {
        let (destination, lhs, rhs) = instruction.expect3()?;
        let destination = destination.expect_register()?;
        check_register(OperandKind::Register(destination))?;
        check_register(lhs.kind)?;
        check_register(rhs.kind)?;
        Ok((destination, lhs.kind, rhs.kind))
    }

    /// The destination register and the source of an instruction.
    pub(crate) fn destination_and_one(&self, instruction: &Instruction) -> (r: Result<
        (Register, OperandKind),
        VMError,
    >)
        requires
            instruction.count() == 2 ==> instruction.operand1 is Some && instruction.operand2 is Some,
        ensures
            instruction.count() != 2 ==> (r matches Err(e) && Lowering::Error(e.kind) == count_error(
                2,
                *instruction,
            )),
            instruction.count() == 2 ==> match instruction.operand1.unwrap().kind {
                OperandKind::Register(d) => {
                    let b = instruction.operand2.unwrap().kind;
                    if !d.is_valid() {
                        r matches Err(e) && Lowering::Error(e.kind) == register_error(OperandKind::Register(d))
                    } else if !fits(b) {
                        r matches Err(e) && Lowering::Error(e.kind) == register_error(b)
                    } else {
                        r == Ok::<_, VMError>((d, b))
                    }
                },
                a => r matches Err(e) && Lowering::Error(e.kind) == type_error(a),
            },
    {
        let (destination, source) = instruction.expect2()?;
        let destination = destination.expect_register()?;
        check_register(OperandKind::Register(destination))?;
        check_register(source.kind)?;
        Ok((destination, source.kind))
    }

    /// An integer operation: the sources into `RAX` and `RCX`, then
    /// `operation`, then `RAX` into the destination.
    fn binary_integer(&self, instruction: &Instruction, operation: &[u8]) -> (r: Result<Vec<u8>, VMError>)
        requires
            !(lower_binary(*self, *instruction, operation@) is Panic),
        ensures
            produced(r, lower_binary(*self, *instruction, operation@)),
    {
        let (destination, lhs, rhs) = self.destination_and_two(instruction)?;
        let mut code: Vec<u8> = Vec::new();
        self.load_integer_operands(&mut code, lhs, rhs);
        emit(&mut code, operation);
        self.store_integer_result(&mut code, destination);
        Ok(code)
    }

    /// An integer comparison: `cmp rax, rcx`, the `setcc al` given, then the
    /// flag zero-extended into the destination.
    fn binary_compare(&self, instruction: &Instruction, setcc: &[u8; 3]) -> (r: Result<Vec<u8>, VMError>)
        requires
            !(lower_compare(*self, *instruction, setcc@) is Panic),
        ensures
            produced(r, lower_compare(*self, *instruction, setcc@)),
    {
        let (destination, lhs, rhs) = self.destination_and_two(instruction)?;
        let mut code: Vec<u8> = Vec::new();
        self.load_integer_operands(&mut code, lhs, rhs);
        emit(&mut code, &[0x48, 0x39, 0xC8]);
        emit(&mut code, setcc);
        emit(&mut code, &[0x0F, 0xB6, 0xC0]);
        self.store_integer_result(&mut code, destination);
        Ok(code)
    }

    /// An integer operation of one source: the source into `RAX`, then
    /// `operation`, then `RAX` into the destination.
    fn unary_integer(&self, instruction: &Instruction, operation: &[u8; 3]) -> (r: Result<Vec<u8>, VMError>)
        requires
            !(lower_unary(*self, *instruction, operation@) is Panic),
        ensures
            produced(r, lower_unary(*self, *instruction, operation@)),
    {
        let (destination, source) = self.destination_and_one(instruction)?;
        let mut code: Vec<u8> = Vec::new();
        self.mov_rax_operand(&mut code, source);
        emit(&mut code, operation);
        self.store_integer_result(&mut code, destination);
        Ok(code)
    }

    /// A floating-point operation: the sources into `XMM0` and `XMM1`, then
    /// `operation`, then `XMM0` into the destination.
    fn binary_float(&self, instruction: &Instruction, operation: &[u8; 4]) -> (r: Result<Vec<u8>, VMError>)
        requires
            !(lower_float(*self, *instruction, operation@) is Panic),
        ensures
            produced(r, lower_float(*self, *instruction, operation@)),
    {
        let (destination, lhs, rhs) = self.destination_and_two(instruction)?;
        let mut code: Vec<u8> = Vec::new();
        self.load_float_operands(&mut code, lhs, rhs);
        emit(&mut code, operation);
        self.store_float_result(&mut code, destination);
        Ok(code)
    }

    /// A floating-point comparison: `ucomisd xmm0, xmm1`, the `condition`
    /// given, then the flag zero-extended into the destination.
    fn binary_fcompare(&self, instruction: &Instruction, condition: &[u8]) -> (r: Result<Vec<u8>, VMError>)
        requires
            !(lower_fcompare(*self, *instruction, condition@) is Panic),
        ensures
            produced(r, lower_fcompare(*self, *instruction, condition@)),
    {
        let (destination, lhs, rhs) = self.destination_and_two(instruction)?;
        let mut code: Vec<u8> = Vec::new();
        self.load_float_operands(&mut code, lhs, rhs);
        emit(&mut code, &[0x66, 0x0F, 0x2E, 0xC1]);
        emit(&mut code, condition);
        emit(&mut code, &[0x0F, 0xB6, 0xC0]);
        self.mov_absolute_rax(&mut code, destination.0 as usize);
        Ok(code)
    }

    /// `FREM`: both operands go through the stack to the x87 unit, whose
    /// partial remainder `fprem` repeats while the C2 status bit is set.
    fn frem(&self, instruction: &Instruction) -> (r: Result<Vec<u8>, VMError>)
        requires
            !(lower_frem(*self, *instruction) is Panic),
        ensures
            produced(r, lower_frem(*self, *instruction)),
    {
        let (destination, lhs, rhs) = self.destination_and_two(instruction)?;
        let mut code: Vec<u8> = Vec::new();
        self.load_float_operands(&mut code, lhs, rhs);
        self.x87_remainder(&mut code);
        self.mov_absolute_rax(&mut code, destination.0 as usize);
        Ok(code)
    }

    /// The remainder of `XMM0` by `XMM1` into `RAX`: both operands go
    /// through the stack to the x87 unit, whose partial remainder `fprem`
    /// repeats while the C2 status bit is set.
    #[verifier::rlimit(40)]
    fn x87_remainder(&self, code: &mut Vec<u8>)
        ensures
            final(code)@ == old(code)@ + frem_body(),
    {
        let mut body: Vec<u8> = Vec::new();
        // `sub rsp, 16`
        emit(&mut body, &[0x48, 0x83, 0xEC, 0x10]);
        self.movq_rax_xmm0(&mut body);
        // `mov [rsp], rax`
        emit(&mut body, &[0x48, 0x89, 0x04, 0x24]);
        self.movq_rcx_xmm1(&mut body);
        // `mov [rsp + 8], rcx`
        emit(&mut body, &[0x48, 0x89, 0x4C, 0x24, 0x08]);
        // `fld qword [rsp + 8]`, then `fld qword [rsp]`: ST0 % ST1 is lhs % rhs.
        emit(&mut body, &[0xDD, 0x44, 0x24, 0x08]);
        emit(&mut body, &[0xDD, 0x04, 0x24]);
        let ghost head = body@;
        // `fprem`
        let fprem_offset = body.len();
        emit(&mut body, &[0xDE, 0xF8]);
        // `fnstsw ax`
        emit(&mut body, &[0xDF, 0xE0]);
        // `test ah, 04h`
        emit(&mut body, &[0xF6, 0xC4, 0x04]);
        // `jnz fprem`: back over the 2 + 2 + 3 bytes above and its own 2.
        let back = body.len() + 2 - fprem_offset;
        emit(&mut body, &[0x75, (256 - back) as u8]);
        let ghost middle = body@;
        // `fstp qword [rsp]`, `fstp st0`, `mov rax, [rsp]`, `add rsp, 16`
        emit(&mut body, &[0xDD, 0x1C, 0x24]);
        emit(&mut body, &[0xDD, 0xD8]);
        emit(&mut body, &[0x48, 0x8B, 0x04, 0x24]);
        emit(&mut body, &[0x48, 0x83, 0xC4, 0x10]);
        proof {
            assert(back == 9);
            assert(middle =~= head + seq![0xDEu8, 0xF8u8] + seq![0xDFu8, 0xE0u8] + seq![0xF6u8, 0xC4u8, 0x04u8] + seq![0x75u8, 0xF7u8]);
            assert(body@ =~= frem_body());
        }
        emit(code, body.as_slice());
    }

    /// `FNEG`: the sign bit of the source is flipped with `xorpd`.
    fn fneg(&self, instruction: &Instruction) -> (r: Result<Vec<u8>, VMError>)
        requires
            !(lower_fneg(*self, *instruction) is Panic),
        ensures
            produced(r, lower_fneg(*self, *instruction)),
    {
        let (destination, source) = self.destination_and_one(instruction)?;
        let mut code: Vec<u8> = Vec::new();
        self.mov_rax_operand(&mut code, source);
        self.movq_xmm0_rax(&mut code);
        // `mov rcx, 8000000000000000h`
        self.mov_rcx_immediate(&mut code, 0x8000_0000_0000_0000);
        self.movq_xmm1_rcx(&mut code);
        // `xorpd xmm0, xmm1`
        emit(&mut code, &[0x66, 0x0F, 0x57, 0xC1]);
        self.store_float_result(&mut code, destination);
        proof {
            assert(code@ =~= rax_from(*self, source) + fneg_body() + rax_to(*self, destination));
        }
        Ok(code)
    }

    /// `LOAD* <register>, <address>`: reads at the machine's memory base
    /// (from its cell: a host may replace the buffer) plus the address,
    /// zero-extended.
    fn load_(&self, instruction: &Instruction, ctx: &GenContext) -> (r: Result<Vec<u8>, VMError>)
        requires
            !(lower_load(*self, *ctx, *instruction) is Panic),
        ensures
            produced(r, lower_load(*self, *ctx, *instruction)),
    {
        let (destination, source) = self.destination_and_one(instruction)?;
        let mut code: Vec<u8> = Vec::new();
        self.mov_rax_operand(&mut code, source);
        self.memory_pointer(&mut code, ctx);
        match instruction.opcode {
            // `movzx eax, byte [rdx]`
            OperationCode::LOAD8 => emit(&mut code, &[0x0F, 0xB6, 0x02]),
            // `movzx eax, word [rdx]`
            OperationCode::LOAD16 => emit(&mut code, &[0x0F, 0xB7, 0x02]),
            // `mov eax, dword [rdx]`
            OperationCode::LOAD32 => emit(&mut code, &[0x8B, 0x02]),
            // `mov rax, qword [rdx]`
            _ => emit(&mut code, &[0x48, 0x8B, 0x02]),
        }
        self.mov_absolute_rax(&mut code, destination.0 as usize);
        Ok(code)
    }

    /// `STORE* <address>, <value>`: writes the low part of the value at the
    /// machine's memory base plus the address.
    fn store_(&self, instruction: &Instruction, ctx: &GenContext) -> (r: Result<Vec<u8>, VMError>)
        requires
            !(lower_store(*self, *ctx, *instruction) is Panic),
        ensures
            produced(r, lower_store(*self, *ctx, *instruction)),
    {
        let (address, value) = instruction.expect2()?;
        check_register(address.kind)?;
        check_register(value.kind)?;
        let mut code: Vec<u8> = Vec::new();
        self.mov_rax_operand(&mut code, address.kind);
        // After the address: `mov_rcx_register` clobbers `RDX`.
        self.mov_rcx_operand(&mut code, value.kind);
        self.memory_pointer(&mut code, ctx);
        match instruction.opcode {
            // `mov [rdx], cl`
            OperationCode::STORE8 => emit(&mut code, &[0x88, 0x0A]),
            // `mov [rdx], cx`
            OperationCode::STORE16 => emit(&mut code, &[0x66, 0x89, 0x0A]),
            // `mov [rdx], ecx`
            OperationCode::STORE32 => emit(&mut code, &[0x89, 0x0A]),
            // `mov [rdx], rcx`
            _ => emit(&mut code, &[0x48, 0x89, 0x0A]),
        }
        Ok(code)
    }

    /// `RDX` pointed at the byte of the machine's memory whose offset is in
    /// `RAX`.
    fn memory_pointer(&self, code: &mut Vec<u8>, ctx: &GenContext)
        ensures
            final(code)@ == old(code)@ + memory_pointer(*ctx),
    {
        // `mov rdx, <membase cell>`
        emit(code, &[0x48, 0xBA]);
        emit_u64(code, ctx.membase_addr);
        // `mov rdx, [rdx]`
        emit(code, &[0x48, 0x8B, 0x12]);
        // `add rdx, rax`
        emit(code, &[0x48, 0x01, 0xC2]);
    }
}

impl JITCodegen {
    fn iadd(&self, instruction: &Instruction) -> (r: Result<Vec<u8>, VMError>)
        requires
            !(lower_binary(*self, *instruction, integer_op(OperationCode::IADD)) is Panic),
        ensures
            produced(r, lower_binary(*self, *instruction, integer_op(OperationCode::IADD))),
    {
        // `add rax, rcx`
        self.binary_integer(instruction, &[0x48, 0x01, 0xC8])
    }

    fn isub(&self, instruction: &Instruction) -> (r: Result<Vec<u8>, VMError>)
        requires
            !(lower_binary(*self, *instruction, integer_op(OperationCode::ISUB)) is Panic),
        ensures
            produced(r, lower_binary(*self, *instruction, integer_op(OperationCode::ISUB))),
    {
        // `sub rax, rcx`
        self.binary_integer(instruction, &[0x48, 0x29, 0xC8])
    }

    fn imul(&self, instruction: &Instruction) -> (r: Result<Vec<u8>, VMError>)
        requires
            !(lower_binary(*self, *instruction, integer_op(OperationCode::IMUL)) is Panic),
        ensures
            produced(r, lower_binary(*self, *instruction, integer_op(OperationCode::IMUL))),
    {
        // `imul rax, rcx`
        self.binary_integer(instruction, &[0x48, 0x0F, 0xAF, 0xC1])
    }

    fn sdiv(&self, instruction: &Instruction) -> (r: Result<Vec<u8>, VMError>)
        requires
            !(lower_binary(*self, *instruction, integer_op(OperationCode::SDIV)) is Panic),
        ensures
            produced(r, lower_binary(*self, *instruction, integer_op(OperationCode::SDIV))),
    {
        // `cqo` (sign-extend RAX into RDX:RAX), `idiv rcx`: the quotient stays in RAX.
        self.binary_integer(instruction, &[0x48, 0x99, 0x48, 0xF7, 0xF9])
    }

    fn udiv(&self, instruction: &Instruction) -> (r: Result<Vec<u8>, VMError>)
        requires
            !(lower_binary(*self, *instruction, integer_op(OperationCode::UDIV)) is Panic),
        ensures
            produced(r, lower_binary(*self, *instruction, integer_op(OperationCode::UDIV))),
    {
        // `xor edx, edx` (clear the high half of RDX:RAX), `div rcx`.
        self.binary_integer(instruction, &[0x31, 0xD2, 0x48, 0xF7, 0xF1])
    }

    fn srem(&self, instruction: &Instruction) -> (r: Result<Vec<u8>, VMError>)
        requires
            !(lower_binary(*self, *instruction, integer_op(OperationCode::SREM)) is Panic),
        ensures
            produced(r, lower_binary(*self, *instruction, integer_op(OperationCode::SREM))),
    {
        // `cqo`, `idiv rcx`, then the remainder from RDX: `mov rax, rdx`.
        self.binary_integer(instruction, &[0x48, 0x99, 0x48, 0xF7, 0xF9, 0x48, 0x89, 0xD0])
    }

    fn urem(&self, instruction: &Instruction) -> (r: Result<Vec<u8>, VMError>)
        requires
            !(lower_binary(*self, *instruction, integer_op(OperationCode::UREM)) is Panic),
        ensures
            produced(r, lower_binary(*self, *instruction, integer_op(OperationCode::UREM))),
    {
        // `xor edx, edx`, `div rcx`, then `mov rax, rdx`.
        self.binary_integer(instruction, &[0x31, 0xD2, 0x48, 0xF7, 0xF1, 0x48, 0x89, 0xD0])
    }

    fn and_(&self, instruction: &Instruction) -> (r: Result<Vec<u8>, VMError>)
        requires
            !(lower_binary(*self, *instruction, integer_op(OperationCode::AND)) is Panic),
        ensures
            produced(r, lower_binary(*self, *instruction, integer_op(OperationCode::AND))),
    {
        // `and rax, rcx`
        self.binary_integer(instruction, &[0x48, 0x21, 0xC8])
    }

    fn or_(&self, instruction: &Instruction) -> (r: Result<Vec<u8>, VMError>)
        requires
            !(lower_binary(*self, *instruction, integer_op(OperationCode::OR)) is Panic),
        ensures
            produced(r, lower_binary(*self, *instruction, integer_op(OperationCode::OR))),
    {
        // `or rax, rcx`
        self.binary_integer(instruction, &[0x48, 0x09, 0xC8])
    }

    fn xor_(&self, instruction: &Instruction) -> (r: Result<Vec<u8>, VMError>)
        requires
            !(lower_binary(*self, *instruction, integer_op(OperationCode::XOR)) is Panic),
        ensures
            produced(r, lower_binary(*self, *instruction, integer_op(OperationCode::XOR))),
    {
        // `xor rax, rcx`
        self.binary_integer(instruction, &[0x48, 0x31, 0xC8])
    }

    fn lsl(&self, instruction: &Instruction) -> (r: Result<Vec<u8>, VMError>)
        requires
            !(lower_binary(*self, *instruction, integer_op(OperationCode::LSL)) is Panic),
        ensures
            produced(r, lower_binary(*self, *instruction, integer_op(OperationCode::LSL))),
    {
        // `shl rax, cl`: the CPU masks the count to 6 bits.
        self.binary_integer(instruction, &[0x48, 0xD3, 0xE0])
    }

    fn lsr(&self, instruction: &Instruction) -> (r: Result<Vec<u8>, VMError>)
        requires
            !(lower_binary(*self, *instruction, integer_op(OperationCode::LSR)) is Panic),
        ensures
            produced(r, lower_binary(*self, *instruction, integer_op(OperationCode::LSR))),
    {
        // `shr rax, cl`
        self.binary_integer(instruction, &[0x48, 0xD3, 0xE8])
    }

    fn sar(&self, instruction: &Instruction) -> (r: Result<Vec<u8>, VMError>)
        requires
            !(lower_binary(*self, *instruction, integer_op(OperationCode::SAR)) is Panic),
        ensures
            produced(r, lower_binary(*self, *instruction, integer_op(OperationCode::SAR))),
    {
        // `sar rax, cl`: the sign bit is kept.
        self.binary_integer(instruction, &[0x48, 0xD3, 0xF8])
    }

    fn ineg(&self, instruction: &Instruction) -> (r: Result<Vec<u8>, VMError>)
        requires
            !(lower_unary(*self, *instruction, seq![0x48u8, 0xF7u8, 0xD8u8]) is Panic),
        ensures
            produced(r, lower_unary(*self, *instruction, seq![0x48u8, 0xF7u8, 0xD8u8])),
    {
        // `neg rax`: two's-complement negation.
        self.unary_integer(instruction, &[0x48, 0xF7, 0xD8])
    }

    fn not_(&self, instruction: &Instruction) -> (r: Result<Vec<u8>, VMError>)
        requires
            !(lower_unary(*self, *instruction, seq![0x48u8, 0xF7u8, 0xD0u8]) is Panic),
        ensures
            produced(r, lower_unary(*self, *instruction, seq![0x48u8, 0xF7u8, 0xD0u8])),
    {
        // `not rax`
        self.unary_integer(instruction, &[0x48, 0xF7, 0xD0])
    }

    fn ieq(&self, instruction: &Instruction) -> (r: Result<Vec<u8>, VMError>)
        requires
            !(lower_compare(*self, *instruction, setcc(OperationCode::IEQ)) is Panic),
        ensures
            produced(r, lower_compare(*self, *instruction, setcc(OperationCode::IEQ))),
    {
        // `sete al`
        self.binary_compare(instruction, &[0x0F, 0x94, 0xC0])
    }

    fn ine(&self, instruction: &Instruction) -> (r: Result<Vec<u8>, VMError>)
        requires
            !(lower_compare(*self, *instruction, setcc(OperationCode::INE)) is Panic),
        ensures
            produced(r, lower_compare(*self, *instruction, setcc(OperationCode::INE))),
    {
        // `setne al`
        self.binary_compare(instruction, &[0x0F, 0x95, 0xC0])
    }

    fn slt(&self, instruction: &Instruction) -> (r: Result<Vec<u8>, VMError>)
        requires
            !(lower_compare(*self, *instruction, setcc(OperationCode::SLT)) is Panic),
        ensures
            produced(r, lower_compare(*self, *instruction, setcc(OperationCode::SLT))),
    {
        // `setl al`
        self.binary_compare(instruction, &[0x0F, 0x9C, 0xC0])
    }

    fn sle(&self, instruction: &Instruction) -> (r: Result<Vec<u8>, VMError>)
        requires
            !(lower_compare(*self, *instruction, setcc(OperationCode::SLE)) is Panic),
        ensures
            produced(r, lower_compare(*self, *instruction, setcc(OperationCode::SLE))),
    {
        // `setle al`
        self.binary_compare(instruction, &[0x0F, 0x9E, 0xC0])
    }

    fn sgt(&self, instruction: &Instruction) -> (r: Result<Vec<u8>, VMError>)
        requires
            !(lower_compare(*self, *instruction, setcc(OperationCode::SGT)) is Panic),
        ensures
            produced(r, lower_compare(*self, *instruction, setcc(OperationCode::SGT))),
    {
        // `setg al`
        self.binary_compare(instruction, &[0x0F, 0x9F, 0xC0])
    }

    fn sge(&self, instruction: &Instruction) -> (r: Result<Vec<u8>, VMError>)
        requires
            !(lower_compare(*self, *instruction, setcc(OperationCode::SGE)) is Panic),
        ensures
            produced(r, lower_compare(*self, *instruction, setcc(OperationCode::SGE))),
    {
        // `setge al`
        self.binary_compare(instruction, &[0x0F, 0x9D, 0xC0])
    }

    fn ult(&self, instruction: &Instruction) -> (r: Result<Vec<u8>, VMError>)
        requires
            !(lower_compare(*self, *instruction, setcc(OperationCode::ULT)) is Panic),
        ensures
            produced(r, lower_compare(*self, *instruction, setcc(OperationCode::ULT))),
    {
        // `setb al`
        self.binary_compare(instruction, &[0x0F, 0x92, 0xC0])
    }

    fn ule(&self, instruction: &Instruction) -> (r: Result<Vec<u8>, VMError>)
        requires
            !(lower_compare(*self, *instruction, setcc(OperationCode::ULE)) is Panic),
        ensures
            produced(r, lower_compare(*self, *instruction, setcc(OperationCode::ULE))),
    {
        // `setbe al`
        self.binary_compare(instruction, &[0x0F, 0x96, 0xC0])
    }

    fn ugt(&self, instruction: &Instruction) -> (r: Result<Vec<u8>, VMError>)
        requires
            !(lower_compare(*self, *instruction, setcc(OperationCode::UGT)) is Panic),
        ensures
            produced(r, lower_compare(*self, *instruction, setcc(OperationCode::UGT))),
    {
        // `seta al`
        self.binary_compare(instruction, &[0x0F, 0x97, 0xC0])
    }

    fn uge(&self, instruction: &Instruction) -> (r: Result<Vec<u8>, VMError>)
        requires
            !(lower_compare(*self, *instruction, setcc(OperationCode::UGE)) is Panic),
        ensures
            produced(r, lower_compare(*self, *instruction, setcc(OperationCode::UGE))),
    {
        // `setae al`
        self.binary_compare(instruction, &[0x0F, 0x93, 0xC0])
    }

    fn fadd(&self, instruction: &Instruction) -> (r: Result<Vec<u8>, VMError>)
        requires
            !(lower_float(*self, *instruction, float_op(OperationCode::FADD)) is Panic),
        ensures
            produced(r, lower_float(*self, *instruction, float_op(OperationCode::FADD))),
    {
        // `addsd xmm0, xmm1`
        self.binary_float(instruction, &[0xF2, 0x0F, 0x58, 0xC1])
    }

    fn fsub(&self, instruction: &Instruction) -> (r: Result<Vec<u8>, VMError>)
        requires
            !(lower_float(*self, *instruction, float_op(OperationCode::FSUB)) is Panic),
        ensures
            produced(r, lower_float(*self, *instruction, float_op(OperationCode::FSUB))),
    {
        // `subsd xmm0, xmm1`
        self.binary_float(instruction, &[0xF2, 0x0F, 0x5C, 0xC1])
    }

    fn fmul(&self, instruction: &Instruction) -> (r: Result<Vec<u8>, VMError>)
        requires
            !(lower_float(*self, *instruction, float_op(OperationCode::FMUL)) is Panic),
        ensures
            produced(r, lower_float(*self, *instruction, float_op(OperationCode::FMUL))),
    {
        // `mulsd xmm0, xmm1`
        self.binary_float(instruction, &[0xF2, 0x0F, 0x59, 0xC1])
    }

    fn fdiv(&self, instruction: &Instruction) -> (r: Result<Vec<u8>, VMError>)
        requires
            !(lower_float(*self, *instruction, float_op(OperationCode::FDIV)) is Panic),
        ensures
            produced(r, lower_float(*self, *instruction, float_op(OperationCode::FDIV))),
    {
        // `divsd xmm0, xmm1`
        self.binary_float(instruction, &[0xF2, 0x0F, 0x5E, 0xC1])
    }

    fn feq(&self, instruction: &Instruction) -> (r: Result<Vec<u8>, VMError>)
        requires
            !(lower_fcompare(*self, *instruction, float_condition(OperationCode::FEQ)) is Panic),
        ensures
            produced(r, lower_fcompare(*self, *instruction, float_condition(OperationCode::FEQ))),
    {
        // Ordered equality: `sete al`, `setnp cl`, `and al, cl` (ZF is also
        // set when unordered).
        self.binary_fcompare(instruction, &[0x0F, 0x94, 0xC0, 0x0F, 0x9B, 0xC1, 0x22, 0xC1])
    }

    fn fne(&self, instruction: &Instruction) -> (r: Result<Vec<u8>, VMError>)
        requires
            !(lower_fcompare(*self, *instruction, float_condition(OperationCode::FNE)) is Panic),
        ensures
            produced(r, lower_fcompare(*self, *instruction, float_condition(OperationCode::FNE))),
    {
        // Unequal or unordered: `setne al`, `setp cl`, `or al, cl`.
        self.binary_fcompare(instruction, &[0x0F, 0x95, 0xC0, 0x0F, 0x9A, 0xC1, 0x0A, 0xC1])
    }

    fn flt(&self, instruction: &Instruction) -> (r: Result<Vec<u8>, VMError>)
        requires
            !(lower_fcompare(*self, *instruction, float_condition(OperationCode::FLT)) is Panic),
        ensures
            produced(r, lower_fcompare(*self, *instruction, float_condition(OperationCode::FLT))),
    {
        // Ordered less-than: `setb al`, `setnp cl`, `and al, cl`.
        self.binary_fcompare(instruction, &[0x0F, 0x92, 0xC0, 0x0F, 0x9B, 0xC1, 0x22, 0xC1])
    }

    fn fle(&self, instruction: &Instruction) -> (r: Result<Vec<u8>, VMError>)
        requires
            !(lower_fcompare(*self, *instruction, float_condition(OperationCode::FLE)) is Panic),
        ensures
            produced(r, lower_fcompare(*self, *instruction, float_condition(OperationCode::FLE))),
    {
        // Ordered less-or-equal: `setbe al`, `setnp cl`, `and al, cl`.
        self.binary_fcompare(instruction, &[0x0F, 0x96, 0xC0, 0x0F, 0x9B, 0xC1, 0x22, 0xC1])
    }

    fn fgt(&self, instruction: &Instruction) -> (r: Result<Vec<u8>, VMError>)
        requires
            !(lower_fcompare(*self, *instruction, float_condition(OperationCode::FGT)) is Panic),
        ensures
            produced(r, lower_fcompare(*self, *instruction, float_condition(OperationCode::FGT))),
    {
        // `seta al`: unordered sets ZF, so NaN is already excluded.
        self.binary_fcompare(instruction, &[0x0F, 0x97, 0xC0])
    }

    fn fge(&self, instruction: &Instruction) -> (r: Result<Vec<u8>, VMError>)
        requires
            !(lower_fcompare(*self, *instruction, float_condition(OperationCode::FGE)) is Panic),
        ensures
            produced(r, lower_fcompare(*self, *instruction, float_condition(OperationCode::FGE))),
    {
        // `setae al`: unordered sets CF, so NaN is already excluded.
        self.binary_fcompare(instruction, &[0x0F, 0x93, 0xC0])
    }
}

// ====== Control flow ======

/// The largest offset that a jump of the generated code starts from or
/// goes to: with every `rel32` field and every target within it, each
/// displacement `target - (field + 4)` lies in the range of an `i32`.
pub const REACH: usize = 0x7FFF_FFFC;

/// Where the targets of the generated jumps lie (see [`Targets`]).
pub(crate) struct Layout {
    pub(crate) offsets: Vec<usize>,
    pub(crate) epilogue: usize,
    pub(crate) error_stub: usize,
    pub(crate) table_base: u64,
    pub(crate) table_len: u64,
}

impl Layout {
    /// The targets, as numbers.
    pub(crate) open spec fn targets(&self) -> Targets {
        Targets {
            offsets: self.offsets@.map_values(|o: usize| o as int),
            epilogue: self.epilogue as int,
            error_stub: self.error_stub as int,
            table_base: self.table_base,
            table_len: self.table_len,
        }
    }

    /// Every target lies within [`REACH`].
    pub(crate) open spec fn bounded(&self) -> bool {
        &&& forall|k: int| 0 <= k < self.offsets@.len() ==> #[trigger] self.offsets@[k] <= REACH
        &&& self.epilogue <= REACH
        &&& self.error_stub <= REACH
    }

    /// The offset that a jump to instruction `index` lands on.
    pub(crate) fn target(&self, index: usize) -> (r: usize)
        requires
            self.bounded(),
        ensures
            r == target_offset(self.targets(), index as int),
            r <= REACH,
    {
        if index < self.offsets.len() {
            self.offsets[index]
        } else {
            self.epilogue
        }
    }
}

/// Whether `r`, and the code `after` it left from `before`, are what the
/// lowering `l` gives: its bytes appended, or its error with the code left
/// as it was (a panic allows anything: the generator never reaches it).
pub open spec fn appended(r: Result<(), VMError>, before: Seq<u8>, after: Seq<u8>, l: Lowering) -> bool {
    match l {
        Lowering::Code(c) => r is Ok && after == before + c,
        Lowering::Error(e) => r matches Err(x) && x.kind == e && after == before,
        Lowering::Panic => true,
    }
}

/// The `rel32` field at `pos` that jumps to `target`.
pub(crate) fn rel32_field(pos: usize, target: usize) -> (r: [u8; 4])
    requires
        pos <= REACH + 256,
        target <= REACH + 256,
    ensures
        r@ == rel32(pos as int, target as int),
{
    if target >= pos + 4 {
        crate::bytes::u32_to_le_bytes((target - (pos + 4)) as u32)
    } else {
        let back: u64 = (pos + 4 - target) as u64;
        proof {
            assert((target - (pos + 4)) % 0x1_0000_0000 == 0x1_0000_0000 - back);
        }
        crate::bytes::u32_to_le_bytes((0x1_0000_0000u64 - back) as u32)
    }
}

/// Writes the `rel32` displacement from the end of the 4-byte field at
/// `pos` to `target_off`.
fn patch_rel32(code: &mut Vec<u8>, pos: usize, target_off: usize)
    requires
        pos + 4 <= old(code)@.len(),
        pos <= REACH + 256,
        target_off <= REACH + 256,
    ensures
        final(code)@ == old(code)@.subrange(0, pos as int) + rel32(pos as int, target_off as int)
            + old(code)@.subrange(pos + 4, old(code)@.len() as int),
{
    let field = rel32_field(pos, target_off);
    code.set(pos, field[0]);
    code.set(pos + 1, field[1]);
    code.set(pos + 2, field[2]);
    code.set(pos + 3, field[3]);
    assert(code@ =~= old(code)@.subrange(0, pos as int) + rel32(pos as int, target_off as int)
        + old(code)@.subrange(pos + 4, old(code)@.len() as int));
}

/// A call of the trampoline at `function` with the arguments `first` and
/// `second`.
fn call_trampoline(
    code: &mut Vec<u8>,
    convention: CallingConvention,
    first: u64,
    second: u64,
    function: u64,
)
    ensures
        final(code)@ == old(code)@ + call_with_two(convention, first, second, function),
{
    match convention {
        CallingConvention::SystemV => {
            // `sub rsp, 8`: align the stack for the call.
            emit(code, &[0x48, 0x83, 0xEC, 0x08]);
            // `mov rdi, <first>`
            emit(code, &[0x48, 0xBF]);
            emit_u64(code, first);
            // `mov rsi, <second>`
            emit(code, &[0x48, 0xBE]);
            emit_u64(code, second);
            // `mov rax, <function>`, `call rax`
            emit(code, &[0x48, 0xB8]);
            emit_u64(code, function);
            emit(code, &[0xFF, 0xD0]);
            // `add rsp, 8`
            emit(code, &[0x48, 0x83, 0xC4, 0x08]);
        },
        CallingConvention::Windows => {
            // `sub rsp, 40`: 32 bytes of shadow space plus alignment.
            emit(code, &[0x48, 0x83, 0xEC, 0x28]);
            // `mov rcx, <first>`
            emit(code, &[0x48, 0xB9]);
            emit_u64(code, first);
            // `mov rdx, <second>`
            emit(code, &[0x48, 0xBA]);
            emit_u64(code, second);
            // `mov rax, <function>`, `call rax`
            emit(code, &[0x48, 0xB8]);
            emit_u64(code, function);
            emit(code, &[0xFF, 0xD0]);
            // `add rsp, 40`
            emit(code, &[0x48, 0x83, 0xC4, 0x28]);
        },
    }
}

impl JITCodegen {
    /// An indirect jump to the instruction whose index is in `RAX`: the
    /// index is checked against the address table, and an index outside
    /// it goes to the epilogue.
    fn emit_dynamic_jump(&self, code: &mut Vec<u8>, lay: &Layout)
        requires
            old(code)@.len() <= REACH + 200,
            lay.bounded(),
        ensures
            final(code)@ == old(code)@ + dynamic_jump(lay.targets(), old(code)@.len() as int),
    {
        // `mov rdx, <table base>`
        emit(code, &[0x48, 0xBA]);
        emit_u64(code, lay.table_base);
        // `mov rcx, <table length>`
        emit(code, &[0x48, 0xB9]);
        emit_u64(code, lay.table_len);
        // `cmp rax, rcx`
        emit(code, &[0x48, 0x39, 0xC8]);
        // `jae <epilogue>`
        emit(code, &[0x0F, 0x83]);
        let pos = code.len();
        emit(code, &rel32_field(pos, lay.epilogue));
        // `mov rax, [rdx + rax * 8]`, `jmp rax`
        emit(code, &[0x48, 0x8B, 0x04, 0xC2]);
        emit(code, &[0xFF, 0xE0]);
    }

    /// A call of the trampoline that pushes `ret_idx` onto the call stack.
    fn emit_call_push(&self, code: &mut Vec<u8>, ret_idx: usize, ctx: &GenContext)
        ensures
            final(code)@ == old(code)@ + call_with_two(
                ctx.convention,
                self.stack_address(),
                ret_idx as u64,
                ctx.call_push,
            ),
    {
        call_trampoline(code, ctx.convention, self.call_stack_address(), ret_idx as u64, ctx.call_push);
    }

    /// `JMP <target>`: a `rel32` jump to an immediate target, an indirect
    /// jump through the address table to a register target.
    fn jmp_(&self, instruction: &Instruction, code: &mut Vec<u8>, lay: &Layout) -> (r: Result<(), VMError>)
        requires
            !(lower_jmp(*self, *instruction, old(code)@.len() as int, lay.targets()) is Panic),
            old(code)@.len() <= REACH,
            lay.bounded(),
        ensures
            appended(
                r,
                old(code)@,
                final(code)@,
                lower_jmp(*self, *instruction, old(code)@.len() as int, lay.targets()),
            ),
    {
        let target = instruction.expect1()?;
        check_register(target.kind)?;
        let ghost start = code@.len() as int;
        match target.kind {
            OperandKind::Immediate(value) => {
                // `jmp rel32`
                emit(code, &[0xE9]);
                let pos = code.len();
                let to = lay.target(value as usize);
                emit(code, &rel32_field(pos, to));
                proof {
                    assert(code@ == old(code)@ + (seq![0xE9u8] + rel32(start + 1, target_offset(lay.targets(), (value as usize) as int))));
                }
            },
            OperandKind::Register(register) => {
                self.mov_rax_register(code, register.0 as usize);
                self.emit_dynamic_jump(code, lay);
            },
        }
        proof {
            assert(code@ =~= old(code)@ + code_of(lower_jmp(*self, *instruction, start, lay.targets())));
        }
        Ok(())
    }

    /// `JZ` and `JNZ`: `jz`/`jnz rel32` on the condition for an immediate
    /// target; for a register target, the condition skips an indirect jump.
    #[verifier::rlimit(80)]
    fn branch_(&self, instruction: &Instruction, code: &mut Vec<u8>, lay: &Layout) -> (r: Result<(), VMError>)
        requires
            !(lower_branch(*self, *instruction, old(code)@.len() as int, lay.targets()) is Panic),
            old(code)@.len() <= REACH,
            lay.bounded(),
        ensures
            appended(
                r,
                old(code)@,
                final(code)@,
                lower_branch(*self, *instruction, old(code)@.len() as int, lay.targets()),
            ),
    {
        let jz = instruction.opcode == OperationCode::JZ;
        let (condition, target) = instruction.expect2()?;
        check_register(condition.kind)?;
        check_register(target.kind)?;
        let ghost start = code@.len() as int;
        match target.kind {
            OperandKind::Immediate(value) => {
                self.branch_direct(jz, condition.kind, lay.target(value as usize), code);
            },
            OperandKind::Register(register) => {
                self.branch_dynamic(jz, condition.kind, register, code, lay);
            },
        }
        proof {
            assert(code@ =~= old(code)@ + code_of(lower_branch(*self, *instruction, start, lay.targets())));
        }
        Ok(())
    }

    /// A conditional `rel32` jump to `to` when the condition is zero
    /// (`jz`) or nonzero.
    fn branch_direct(&self, jz: bool, condition: OperandKind, to: usize, code: &mut Vec<u8>)
        requires
            fits(condition),
            old(code)@.len() <= REACH,
            to <= REACH,
        ensures
            final(code)@ == old(code)@ + rax_from(*self, condition) + seq![0x48u8, 0x85u8, 0xC0u8] + (
            if jz {
                seq![0x0Fu8, 0x84u8]
            } else {
                seq![0x0Fu8, 0x85u8]
            }) + rel32(old(code)@.len() as int + 15, to as int),
    {
        self.mov_rax_operand(code, condition);
        // `test rax, rax`
        emit(code, &[0x48, 0x85, 0xC0]);
        // `jz rel32` or `jnz rel32`
        if jz {
            emit(code, &[0x0F, 0x84]);
        } else {
            emit(code, &[0x0F, 0x85]);
        }
        let pos = code.len();
        emit(code, &rel32_field(pos, to));
    }

    /// An indirect jump to the instruction whose index is in `target`,
    /// skipped when the condition does not hold.
    #[verifier::rlimit(60)]
    fn branch_dynamic(
        &self,
        jz: bool,
        condition: OperandKind,
        target: Register,
        code: &mut Vec<u8>,
        lay: &Layout,
    )
        requires
            fits(condition),
            target.is_valid(),
            old(code)@.len() <= REACH,
            lay.bounded(),
        ensures
            ({
                let skip: int = old(code)@.len() as int + rcx_from(*self, condition).len() + 15;
                final(code)@ == old(code)@ + rcx_from(*self, condition) + rax_from(
                    *self,
                    OperandKind::Register(target),
                ) + seq![0x48u8, 0x85u8, 0xC9u8] + (if jz {
                    seq![0x0Fu8, 0x85u8]
                } else {
                    seq![0x0Fu8, 0x84u8]
                }) + rel32(skip, skip + 39) + dynamic_jump(lay.targets(), skip + 4)
            }),
    {
        // The condition goes to RCX first (`mov_rcx_register` clobbers RDX,
        // which holds nothing yet), the target to RAX.
        self.mov_rcx_operand(code, condition);
        self.mov_rax_register(code, target.0 as usize);
        // `test rcx, rcx`
        emit(code, &[0x48, 0x85, 0xC9]);
        // Skip the indirect jump when the condition does not hold: `jnz
        // <next>` for `JZ`, `jz <next>` for `JNZ`.
        if jz {
            emit(code, &[0x0F, 0x85]);
        } else {
            emit(code, &[0x0F, 0x84]);
        }
        let skip_pos = code.len();
        let ghost head = code@;
        emit(code, &[0, 0, 0, 0]);
        self.emit_dynamic_jump(code, lay);
        let ghost jump = dynamic_jump(lay.targets(), skip_pos + 4);
        let next = code.len();
        proof {
            assert(code@ =~= head + seq![0u8, 0u8, 0u8, 0u8] + jump);
            assert(code@.subrange(0, skip_pos as int) =~= head);
            assert(code@.subrange(skip_pos + 4, code@.len() as int) =~= jump);
        }
        patch_rel32(code, skip_pos, next);
        proof {
            assert(code@ =~= head + rel32(skip_pos as int, next as int) + jump);
        }
    }

    /// `CALL <target>`: pushes the index of the next instruction (known
    /// when generating), then jumps as `JMP` does.
    #[verifier::rlimit(60)]
    fn call_(
        &self,
        instruction: &Instruction,
        index: usize,
        code: &mut Vec<u8>,
        lay: &Layout,
        ctx: &GenContext,
    ) -> (r: Result<(), VMError>)
        requires
            !(lower_call(*self, *ctx, *instruction, index as int, old(code)@.len() as int, lay.targets())
                is Panic),
            index < usize::MAX,
            old(code)@.len() <= REACH,
            lay.bounded(),
        ensures
            appended(
                r,
                old(code)@,
                final(code)@,
                lower_call(*self, *ctx, *instruction, index as int, old(code)@.len() as int, lay.targets()),
            ),
    {
        let target = instruction.expect1()?;
        check_register(target.kind)?;
        let ghost start = code@.len() as int;
        let ret_idx = index + 1;
        match target.kind {
            OperandKind::Immediate(value) => {
                self.emit_call_push(code, ret_idx, ctx);
                // `jmp rel32`
                emit(code, &[0xE9]);
                let pos = code.len();
                emit(code, &rel32_field(pos, lay.target(value as usize)));
            },
            OperandKind::Register(register) => {
                self.mov_rax_register(code, register.0 as usize);
                // Keep the target across the trampoline call: `push rax`.
                emit(code, &[0x50]);
                self.emit_call_push(code, ret_idx, ctx);
                // `pop rax`
                emit(code, &[0x58]);
                self.emit_dynamic_jump(code, lay);
            },
        }
        proof {
            assert(code@ =~= old(code)@ + code_of(
                lower_call(*self, *ctx, *instruction, index as int, start, lay.targets()),
            ));
        }
        Ok(())
    }

    /// `RET`: pops the return index through the trampoline (into the scratch
    /// cell) and jumps to it; on an empty call stack, goes to the error
    /// stub.
    #[verifier::rlimit(60)]
    fn ret_(&self, instruction: &Instruction, code: &mut Vec<u8>, lay: &Layout, ctx: &GenContext) -> (r: Result<(), VMError>)
        requires
            old(code)@.len() <= REACH,
            lay.bounded(),
        ensures
            appended(
                r,
                old(code)@,
                final(code)@,
                lower_ret(*self, *ctx, *instruction, old(code)@.len() as int, lay.targets()),
            ),
    {
        let count = instruction.operand_count();
        if count != 0 {
            return Err(
                VMError::new(
                    VMErrorKind::IncorrectNumberOfOperands { expected: 0, got: count as u8 },
                ),
            );
        }
        let ghost start = code@;
        call_trampoline(code, ctx.convention, self.call_stack_address(), ctx.scratch_addr, ctx.call_pop);
        let ghost call = call_with_two(ctx.convention, self.stack_address(), ctx.scratch_addr, ctx.call_pop);
        // The trampoline returns 1 with the index in the scratch cell, 0 on
        // an empty stack: `test al, al`, `jz <error stub>`.
        emit(code, &[0x84, 0xC0]);
        emit(code, &[0x0F, 0x84]);
        let pos = code.len();
        emit(code, &rel32_field(pos, lay.error_stub));
        // `mov rax, [scratch]`
        emit(code, &[0x48, 0xA1]);
        emit_u64(code, ctx.scratch_addr);
        let ghost head = code@;
        self.emit_dynamic_jump(code, lay);
        proof {
            let c = call + seq![0x84u8, 0xC0u8] + seq![0x0Fu8, 0x84u8] + rel32(start.len() as int + 44, lay.error_stub as int)
                + seq![0x48u8, 0xA1u8] + u64_le_bytes(ctx.scratch_addr) + dynamic_jump(lay.targets(), start.len() as int + 58);
            assert(call.len() == 40);
            assert(head =~= start + call + seq![0x84u8, 0xC0u8] + seq![0x0Fu8, 0x84u8] + rel32(start.len() as int + 44, lay.error_stub as int)
                + seq![0x48u8, 0xA1u8] + u64_le_bytes(ctx.scratch_addr));
            assert(code@ =~= start + c);
            assert(lower_ret(*self, *ctx, *instruction, start.len() as int, lay.targets()) == Lowering::Code(c));
        }
        Ok(())
    }

    /// `VMCALL <service>, <address>, <size>`: calls the trampoline with the
    /// machine, the operands and the out block; a nonzero result goes to
    /// the epilogue.
    #[verifier::rlimit(100)]
    fn vmcall(&self, instruction: &Instruction, code: &mut Vec<u8>, lay: &Layout, ctx: &GenContext) -> (r: Result<(), VMError>)
        requires
            !(lower_vmcall(*self, *ctx, *instruction, old(code)@.len() as int, lay.targets()) is Panic),
            old(code)@.len() <= REACH,
            lay.bounded(),
        ensures
            appended(
                r,
                old(code)@,
                final(code)@,
                lower_vmcall(*self, *ctx, *instruction, old(code)@.len() as int, lay.targets()),
            ),
    {
        let (service, address, size) = instruction.expect3()?;
        check_register(service.kind)?;
        check_register(address.kind)?;
        check_register(size.kind)?;
        let ghost start = code@;
        self.emit_vmcall(code, lay, ctx, service.kind, address.kind, size.kind);
        proof {
            let call = vmcall_call(*self, *ctx, service.kind, address.kind, size.kind);
            let c = call + seq![0x48u8, 0x85u8, 0xC0u8] + seq![0x0Fu8, 0x85u8] + rel32(
                start.len() as int + call.len() + 5,
                lay.epilogue as int,
            );
            assert(lower_vmcall(*self, *ctx, *instruction, start.len() as int, lay.targets()) == Lowering::Code(c));
        }
        Ok(())
    }

    /// The call of the `VMCALL` trampoline, then `test rax, rax` and `jnz
    /// <epilogue>`.
    fn emit_vmcall(
        &self,
        code: &mut Vec<u8>,
        lay: &Layout,
        ctx: &GenContext,
        service: OperandKind,
        address: OperandKind,
        size: OperandKind,
    )
        requires
            fits(service),
            fits(address),
            fits(size),
            old(code)@.len() <= REACH,
            lay.bounded(),
        ensures
            ({
                let call = vmcall_call(*self, *ctx, service, address, size);
                final(code)@ == old(code)@ + (call + seq![0x48u8, 0x85u8, 0xC0u8] + seq![0x0Fu8, 0x85u8]
                    + rel32(old(code)@.len() as int + call.len() + 5, lay.epilogue as int))
            }),
    {
        let ghost start = code@;
        self.emit_vmcall_call(code, ctx, service, address, size);
        let ghost call = vmcall_call(*self, *ctx, service, address, size);
        proof {
            lemma_vmcall_call_len(*self, *ctx, service, address, size);
        }
        // `test rax, rax`, `jnz <epilogue>`
        emit(code, &[0x48, 0x85, 0xC0]);
        emit(code, &[0x0F, 0x85]);
        let pos = code.len();
        emit(code, &rel32_field(pos, lay.epilogue));
        proof {
            let c = call + seq![0x48u8, 0x85u8, 0xC0u8] + seq![0x0Fu8, 0x85u8] + rel32(
                start.len() as int + call.len() + 5,
                lay.epilogue as int,
            );
            assert(pos == start.len() + call.len() + 5);
            assert(code@ =~= start + c);
        }
    }

    /// The call of the `VMCALL` trampoline with the machine, the three
    /// operands and the out block, in the calling convention of `ctx`.
    fn emit_vmcall_call(
        &self,
        code: &mut Vec<u8>,
        ctx: &GenContext,
        service: OperandKind,
        address: OperandKind,
        size: OperandKind,
    )
        requires
            fits(service),
            fits(address),
            fits(size),
        ensures
            final(code)@ == old(code)@ + vmcall_call(*self, *ctx, service, address, size),
    {
        let mut call: Vec<u8> = Vec::new();
        match ctx.convention {
            CallingConvention::SystemV => {
                // `sub rsp, 8`, `mov rdi, <machine>`
                emit(&mut call, &[0x48, 0x83, 0xEC, 0x08]);
                emit(&mut call, &[0x48, 0xBF]);
                emit_u64(&mut call, ctx.wvm);
                // `mov rsi, <service>`, `mov rdx, <address>`, `mov rcx, <size>`
                self.vmcall_arguments(&mut call, service, address, size, [0x48, 0x89, 0xC6], [0x48, 0x89, 0xC2], [0x48, 0x89, 0xC1]);
                // `mov r8, <out>`
                emit(&mut call, &[0x49, 0xB8]);
                emit_u64(&mut call, ctx.out);
                // `mov rax, <trampoline>`, `call rax`, `add rsp, 8`
                emit(&mut call, &[0x48, 0xB8]);
                emit_u64(&mut call, ctx.vmcall);
                emit(&mut call, &[0xFF, 0xD0]);
                emit(&mut call, &[0x48, 0x83, 0xC4, 0x08]);
            },
            CallingConvention::Windows => {
                // `sub rsp, 40`, `mov rcx, <machine>`
                emit(&mut call, &[0x48, 0x83, 0xEC, 0x28]);
                emit(&mut call, &[0x48, 0xB9]);
                emit_u64(&mut call, ctx.wvm);
                // `mov rdx, <service>`, `mov r8, <address>`, `mov r9, <size>`
                self.vmcall_arguments(&mut call, service, address, size, [0x48, 0x89, 0xC2], [0x49, 0x89, 0xC0], [0x49, 0x89, 0xC1]);
                // The fifth argument at `[rsp + 32]`: `mov rax, <out>`,
                // `mov [rsp + 32], rax`.
                emit(&mut call, &[0x48, 0xB8]);
                emit_u64(&mut call, ctx.out);
                emit(&mut call, &[0x48, 0x89, 0x44, 0x24, 0x20]);
                // `mov rax, <trampoline>`, `call rax`, `add rsp, 40`
                emit(&mut call, &[0x48, 0xB8]);
                emit_u64(&mut call, ctx.vmcall);
                emit(&mut call, &[0xFF, 0xD0]);
                emit(&mut call, &[0x48, 0x83, 0xC4, 0x28]);
            },
        }
        assert(call@ =~= vmcall_call(*self, *ctx, service, address, size));
        emit(code, call.as_slice());
    }

    /// The three operands of `VMCALL`, each loaded into `RAX` and moved on
    /// by the `mov` given.
    fn vmcall_arguments(
        &self,
        code: &mut Vec<u8>,
        service: OperandKind,
        address: OperandKind,
        size: OperandKind,
        first: [u8; 3],
        second: [u8; 3],
        third: [u8; 3],
    )
        requires
            fits(service),
            fits(address),
            fits(size),
        ensures
            final(code)@ == old(code)@ + rax_from(*self, service) + first@ + rax_from(*self, address) + second@
                + rax_from(*self, size) + third@,
    {
        self.mov_rax_operand(code, service);
        emit(code, &first);
        self.mov_rax_operand(code, address);
        emit(code, &second);
        self.mov_rax_operand(code, size);
        emit(code, &third);
    }
}

/// Whether the instruction jumps to a register-held target (an address
/// known only at runtime, needing the address table).
pub(crate) fn has_register_target(instruction: &Instruction) -> (r: bool)
    ensures
        r == register_target(*instruction),
{
    let target = match instruction.opcode {
        OperationCode::JMP | OperationCode::CALL => instruction.operand1,
        OperationCode::JZ | OperationCode::JNZ => instruction.operand2,
        _ => {
            return false;
        },
    };
    match target {
        Some(operand) => match operand.kind {
            OperandKind::Register(_) => true,
            OperandKind::Immediate(_) => false,
        },
        None => false,
    }
}

impl JITCodegen {
    /// Lowers the `index`-th instruction at the end of `code`, with the
    /// targets of `lay`.
    #[verifier::rlimit(100)]
    fn lower_instruction(
        &self,
        instruction: &Instruction,
        index: usize,
        ctx: &GenContext,
        lay: &Layout,
        code: &mut Vec<u8>,
    ) -> (r: Result<(), VMError>)
        requires
            !(lower(*self, *ctx, *instruction, index as int, old(code)@.len() as int, lay.targets()) is Panic),
            index < usize::MAX,
            old(code)@.len() <= REACH,
            lay.bounded(),
        ensures
            appended(
                r,
                old(code)@,
                final(code)@,
                lower(*self, *ctx, *instruction, index as int, old(code)@.len() as int, lay.targets()),
            ),
    {
        proof {
            reveal(lower);
        }
        // Most opcodes produce self-contained bytes; control flow appends
        // directly, since its bytes depend on where they lie.
        let bytes = match instruction.opcode {
            OperationCode::NOP => self.nop()?,
            OperationCode::MOVE => self.mov(instruction)?,
            OperationCode::IADD => self.iadd(instruction)?,
            OperationCode::ISUB => self.isub(instruction)?,
            OperationCode::IMUL => self.imul(instruction)?,
            OperationCode::SDIV => self.sdiv(instruction)?,
            OperationCode::UDIV => self.udiv(instruction)?,
            OperationCode::SREM => self.srem(instruction)?,
            OperationCode::UREM => self.urem(instruction)?,
            OperationCode::INEG => self.ineg(instruction)?,
            OperationCode::AND => self.and_(instruction)?,
            OperationCode::OR => self.or_(instruction)?,
            OperationCode::XOR => self.xor_(instruction)?,
            OperationCode::NOT => self.not_(instruction)?,
            OperationCode::LSL => self.lsl(instruction)?,
            OperationCode::LSR => self.lsr(instruction)?,
            OperationCode::SAR => self.sar(instruction)?,
            OperationCode::IEQ => self.ieq(instruction)?,
            OperationCode::INE => self.ine(instruction)?,
            OperationCode::SLT => self.slt(instruction)?,
            OperationCode::SLE => self.sle(instruction)?,
            OperationCode::SGT => self.sgt(instruction)?,
            OperationCode::SGE => self.sge(instruction)?,
            OperationCode::ULT => self.ult(instruction)?,
            OperationCode::ULE => self.ule(instruction)?,
            OperationCode::UGT => self.ugt(instruction)?,
            OperationCode::UGE => self.uge(instruction)?,
            OperationCode::FADD => self.fadd(instruction)?,
            OperationCode::FSUB => self.fsub(instruction)?,
            OperationCode::FMUL => self.fmul(instruction)?,
            OperationCode::FDIV => self.fdiv(instruction)?,
            OperationCode::FREM => self.frem(instruction)?,
            OperationCode::FNEG => self.fneg(instruction)?,
            OperationCode::FEQ => self.feq(instruction)?,
            OperationCode::FNE => self.fne(instruction)?,
            OperationCode::FLT => self.flt(instruction)?,
            OperationCode::FLE => self.fle(instruction)?,
            OperationCode::FGT => self.fgt(instruction)?,
            OperationCode::FGE => self.fge(instruction)?,
            OperationCode::LOAD8 | OperationCode::LOAD16 | OperationCode::LOAD32
            | OperationCode::LOAD64 => self.load_(instruction, ctx)?,
            OperationCode::STORE8 | OperationCode::STORE16 | OperationCode::STORE32
            | OperationCode::STORE64 => self.store_(instruction, ctx)?,
            OperationCode::JMP => {
                return self.jmp_(instruction, code, lay);
            },
            OperationCode::JZ | OperationCode::JNZ => {
                return self.branch_(instruction, code, lay);
            },
            OperationCode::CALL => {
                return self.call_(instruction, index, code, lay, ctx);
            },
            OperationCode::RET => {
                return self.ret_(instruction, code, lay, ctx);
            },
            OperationCode::VMCALL => {
                return self.vmcall(instruction, code, lay, ctx);
            },
        };
        emit(code, bytes.as_slice());
        Ok(())
    }
}

/// Where the generated code ends: after the address table, or after the
/// epilogue when there is none.
pub open spec fn code_end(cg: JITCodegen, ctx: GenContext, program: Seq<Instruction>) -> int {
    if needs_table(program) {
        table_at(cg, ctx, program) + 8 * program.len()
    } else {
        epilogue_at(cg, ctx, program) + 1
    }
}

/// Whether the code that generating computes stays within [`REACH`], so
/// that every `rel32` displacement fits: each instruction up to the first
/// that cannot be lowered starts within it, and when all can be lowered,
/// the whole code ends within it.
pub open spec fn within_reach(cg: JITCodegen, ctx: GenContext, program: Seq<Instruction>) -> bool {
    &&& forall|k: nat|
        k <= program.len() && #[trigger] first_failure(cg, ctx, program, k) is None ==> start_of(
            cg,
            ctx,
            program,
            k,
        ) <= REACH
    &&& first_failure(cg, ctx, program, program.len()) is None ==> code_end(cg, ctx, program) <= REACH
}

/// Once an instruction among the first `m` cannot be lowered, it is the
/// first failure among more of them too.
proof fn lemma_first_failure_stays(cg: JITCodegen, ctx: GenContext, program: Seq<Instruction>, m: nat, n: nat)
    requires
        m <= n,
        first_failure(cg, ctx, program, m) is Some,
    ensures
        first_failure(cg, ctx, program, n) == first_failure(cg, ctx, program, m),
    decreases n,
{
    if n > m {
        lemma_first_failure_stays(cg, ctx, program, m, (n - 1) as nat);
    }
}

/// Without a failure among the first `n`, each of them lowers to code.
proof fn lemma_no_failure_each(cg: JITCodegen, ctx: GenContext, program: Seq<Instruction>, n: nat, j: int)
    requires
        first_failure(cg, ctx, program, n) is None,
        0 <= j < n,
    ensures
        lower(cg, ctx, program[j], j, 0, blank()) is Code,
    decreases n,
{
    if j < n - 1 {
        lemma_no_failure_each(cg, ctx, program, (n - 1) as nat, j);
    } else {
        lemma_lower_shape(cg, ctx, program[j], j, 0, blank());
    }
}

/// Instructions start in order.
proof fn lemma_starts(cg: JITCodegen, ctx: GenContext, program: Seq<Instruction>, j: nat, k: nat)
    requires
        j <= k,
        k <= program.len(),
    ensures
        start_of(cg, ctx, program, j) <= start_of(cg, ctx, program, k),
        0 <= start_of(cg, ctx, program, j),
    decreases k,
{
    if k > 0 {
        lemma_lower_shape(cg, ctx, program[k - 1], 0, 0, blank());
        if j < k {
            lemma_starts(cg, ctx, program, j, (k - 1) as nat);
        } else {
            lemma_starts(cg, ctx, program, (k - 1) as nat, (k - 1) as nat);
        }
    }
}

/// Which pieces the program needs: whether it has a `RET`, a jump to a
/// register target, a `VMCALL`.
fn scan(instructions: &[Instruction]) -> (r: (bool, bool, bool))
    ensures
        r.0 == has_ret(instructions@),
        r.0 || r.1 == needs_table(instructions@),
        r.2 == has_vmcall(instructions@),
{
    let n = instructions.len();
    let ghost program = instructions@;
    let mut need_error_stub = false;
    let mut any_dynamic = false;
    let mut any_vmcall = false;
    let mut k: usize = 0;
    while k < n
        invariant
            n == program.len(),
            program == instructions@,
            k <= n,
            need_error_stub == exists|j: int| 0 <= j < k && #[trigger] program[j].opcode == OperationCode::RET,
            any_vmcall == exists|j: int| 0 <= j < k && #[trigger] program[j].opcode == OperationCode::VMCALL,
            any_dynamic == exists|j: int| 0 <= j < k && register_target(#[trigger] program[j]),
        decreases n - k,
    {
        let instruction = &instructions[k];
        if instruction.opcode == OperationCode::RET {
            need_error_stub = true;
        }
        if instruction.opcode == OperationCode::VMCALL {
            any_vmcall = true;
        }
        if has_register_target(instruction) {
            any_dynamic = true;
        }
        k = k + 1;
    }
    (need_error_stub, any_dynamic, any_vmcall)
}

impl JITCodegen {
    /// The first pass: lowers every instruction with placeholder targets,
    /// to learn where each starts; the error of the first that cannot be
    /// lowered.
    fn measure(&self, instructions: &[Instruction], ctx: &GenContext) -> (r: Result<(Vec<usize>, usize), VMError>)
        requires
            !(first_failure(*self, *ctx, instructions@, instructions@.len()) matches Some(Lowering::Panic)),
            within_reach(*self, *ctx, instructions@),
        ensures
            match first_failure(*self, *ctx, instructions@, instructions@.len()) {
                Some(Lowering::Error(e)) => r matches Err(x) && x.kind == e,
                _ => r matches Ok((offsets, end)) && first_failure(*self, *ctx, instructions@, instructions@.len()) is None
                    && offsets@.len() == instructions@.len() && end
                    == body_end(*self, *ctx, instructions@) && end <= REACH && (
                forall|j: int|
                    0 <= j < instructions@.len() ==> #[trigger] offsets@[j] == start_of(
                        *self,
                        *ctx,
                        instructions@,
                        j as nat,
                    ) && offsets@[j] <= REACH),
            },
    {
        let n = instructions.len();
        let ghost program = instructions@;
        let ghost cg = *self;
        let blank_layout = Layout { offsets: Vec::new(), epilogue: 0, error_stub: 0, table_base: 0, table_len: 0 };
        assert(blank_layout.offsets@.map_values(|o: usize| o as int) =~= Seq::<int>::empty());
        assert(blank_layout.targets() =~= blank());
        let mut offsets: Vec<usize> = Vec::new();
        let mut measured: Vec<u8> = Vec::new();
        let mut index: usize = 0;
        while index < n
            invariant
                n == program.len(),
                program == instructions@,
                cg == *self,
                within_reach(cg, *ctx, program),
                index <= n,
                blank_layout.targets() == blank(),
                blank_layout.bounded(),
                !(first_failure(cg, *ctx, program, n as nat) matches Some(Lowering::Panic)),
                first_failure(cg, *ctx, program, index as nat) is None,
                measured@.len() == start_of(cg, *ctx, program, index as nat),
                offsets@.len() == index,
                forall|j: int| 0 <= j < index ==> #[trigger] offsets@[j] == start_of(cg, *ctx, program, j as nat),
            decreases n - index,
        {
            proof {
                lemma_starts(cg, *ctx, program, index as nat, index as nat);
                lemma_lower_shape(cg, *ctx, program[index as int], index as int, measured@.len() as int, blank());
                lemma_lower_shape(cg, *ctx, program[index as int], index as int, 0, blank());
                assert(((index + 1) - 1) as nat == index as nat);
                if !(lower(cg, *ctx, program[index as int], index as int, 0, blank()) is Code) {
                    lemma_first_failure_stays(cg, *ctx, program, (index + 1) as nat, n as nat);
                }
            }
            offsets.push(measured.len());
            match self.lower_instruction(&instructions[index], index, ctx, &blank_layout, &mut measured) {
                Ok(()) => {},
                Err(e) => {
                    return Err(e);
                },
            }
            index = index + 1;
        }
        proof {
            assert forall|j: int| 0 <= j < n implies #[trigger] offsets@[j] <= REACH by {
                lemma_starts(cg, *ctx, program, j as nat, n as nat);
            }
            assert(first_failure(cg, *ctx, program, n as nat) is None);
            lemma_starts(cg, *ctx, program, n as nat, n as nat);
        }
        Ok((offsets, measured.len()))
    }

    /// The second pass: lowers every instruction in place with its targets
    /// resolved.
    fn emit_body(&self, instructions: &[Instruction], ctx: &GenContext, lay: &Layout) -> (r: Vec<u8>)
        requires
            first_failure(*self, *ctx, instructions@, instructions@.len()) is None,
            within_reach(*self, *ctx, instructions@),
            lay.targets() == resolved(*self, *ctx, instructions@),
            lay.bounded(),
        ensures
            r@ == body(*self, *ctx, instructions@, instructions@.len()),
            r@.len() == body_end(*self, *ctx, instructions@),
    {
        let n = instructions.len();
        let ghost program = instructions@;
        let ghost cg = *self;
        let mut machine_code: Vec<u8> = Vec::new();
        let mut index: usize = 0;
        while index < n
            invariant
                n == program.len(),
                program == instructions@,
                cg == *self,
                within_reach(cg, *ctx, program),
                index <= n,
                lay.targets() == resolved(cg, *ctx, program),
                lay.bounded(),
                first_failure(cg, *ctx, program, n as nat) is None,
                machine_code@ == body(cg, *ctx, program, index as nat),
                machine_code@.len() == start_of(cg, *ctx, program, index as nat),
            decreases n - index,
        {
            proof {
                lemma_starts(cg, *ctx, program, index as nat, n as nat);
                lemma_lower_shape(cg, *ctx, program[index as int], index as int, machine_code@.len() as int, resolved(cg, *ctx, program));
                lemma_lower_shape(cg, *ctx, program[index as int], index as int, 0, blank());
                lemma_no_failure_each(cg, *ctx, program, n as nat, index as int);
                assert(((index + 1) - 1) as nat == index as nat);
            }
            let _ = self.lower_instruction(&instructions[index], index, ctx, lay, &mut machine_code);
            index = index + 1;
        }
        machine_code
    }

    /// The address table: the absolute address of each instruction.
    fn emit_table(&self, code: &mut Vec<u8>, instructions: &[Instruction], ctx: &GenContext, lay: &Layout)
        requires
            lay.targets() == resolved(*self, *ctx, instructions@),
            lay.offsets@.len() == instructions@.len(),
            lay.bounded(),
            ctx.code_base + REACH + 0x1000_0000 <= u64::MAX,
        ensures
            final(code)@ == old(code)@ + table(*self, *ctx, instructions@, instructions@.len()),
    {
        let n = lay.offsets.len();
        let ghost program = instructions@;
        let mut k: usize = 0;
        while k < n
            invariant
                n == program.len(),
                n == lay.offsets@.len(),
                k <= n,
                lay.targets() == resolved(*self, *ctx, program),
                lay.bounded(),
                ctx.code_base + REACH + 0x1000_0000 <= u64::MAX,
                code@ == old(code)@ + table(*self, *ctx, program, k as nat),
            decreases n - k,
        {
            proof {
                assert(((k + 1) - 1) as nat == k as nat);
                assert(lay.targets().offsets[k as int] == lay.offsets@[k as int] as int);
                assert(lay.offsets@[k as int] <= REACH);
            }
            emit_u64(code, ctx.code_base + lay.offsets[k] as u64);
            k = k + 1;
        }
    }

    /// Where the targets lie, from where each instruction starts and where
    /// the instructions end.
    fn place(
        &self,
        instructions: &[Instruction],
        ctx: &GenContext,
        offsets: Vec<usize>,
        end: usize,
        need_error_stub: bool,
        need_table: bool,
    ) -> (r: Layout)
        requires
            need_error_stub == has_ret(instructions@),
            need_table == needs_table(instructions@),
            first_failure(*self, *ctx, instructions@, instructions@.len()) is None,
            within_reach(*self, *ctx, instructions@),
            offsets@.len() == instructions@.len(),
            end == body_end(*self, *ctx, instructions@),
            end <= REACH,
            forall|j: int|
                0 <= j < instructions@.len() ==> #[trigger] offsets@[j] == start_of(
                    *self,
                    *ctx,
                    instructions@,
                    j as nat,
                ) && offsets@[j] <= REACH,
            ctx.code_base + REACH + 0x1000_0000 <= u64::MAX,
        ensures
            r.targets() == resolved(*self, *ctx, instructions@),
            r.bounded(),
            r.offsets@.len() == instructions@.len(),
            r.epilogue == epilogue_at(*self, *ctx, instructions@),
    {
        let n = instructions.len();
        let ghost program = instructions@;
        let closing = need_error_stub && n > 0 && {
            let op = instructions[n - 1].opcode;
            !(op == OperationCode::JMP || op == OperationCode::CALL || op == OperationCode::RET)
        };
        let stub_at_: usize = if closing { end + 5 } else { end };
        let epilogue: usize = if need_error_stub { stub_at_ + 17 } else { stub_at_ };
        let pad: usize = if need_table { (8 - (epilogue + 1) % 8) % 8 } else { 0 };
        let table_start: usize = epilogue + 1 + pad;
        let lay = Layout {
            offsets,
            epilogue,
            error_stub: stub_at_,
            table_base: ctx.code_base + table_start as u64,
            table_len: n as u64,
        };
        proof {
            assert(closing == closing_jump(program));
            assert(stub_at_ == stub_at(*self, *ctx, program));
            assert(epilogue == epilogue_at(*self, *ctx, program));
            assert(pad == padding(*self, *ctx, program));
            assert(table_start == table_at(*self, *ctx, program));
            assert(lay.offsets@.map_values(|o: usize| o as int) =~= resolved(*self, *ctx, program).offsets);
            assert(lay.targets() =~= resolved(*self, *ctx, program));
        }
        lay
    }

    /// What follows the instructions: the closing jump, the error stub, the
    /// epilogue and the aligned address table, each where the program needs
    /// it.
    fn emit_tail(
        &self,
        code: &mut Vec<u8>,
        instructions: &[Instruction],
        ctx: &GenContext,
        lay: &Layout,
        need_error_stub: bool,
        need_table: bool,
    )
        requires
            need_error_stub == has_ret(instructions@),
            need_table == needs_table(instructions@),
            first_failure(*self, *ctx, instructions@, instructions@.len()) is None,
            within_reach(*self, *ctx, instructions@),
            old(code)@.len() == body_end(*self, *ctx, instructions@),
            lay.targets() == resolved(*self, *ctx, instructions@),
            lay.bounded(),
            lay.offsets@.len() == instructions@.len(),
            lay.epilogue == epilogue_at(*self, *ctx, instructions@),
            ctx.code_base + REACH + 0x1000_0000 <= u64::MAX,
        ensures
            final(code)@ == old(code)@ + (if closing_jump(instructions@) {
                seq![0xE9u8] + rel32(body_end(*self, *ctx, instructions@) + 1, epilogue_at(*self, *ctx, instructions@))
            } else {
                Seq::empty()
            }) + (if has_ret(instructions@) {
                error_stub(*ctx)
            } else {
                Seq::empty()
            }) + seq![0xC3u8] + Seq::new(padding(*self, *ctx, instructions@), |k: int| 0x90u8) + (
            if needs_table(instructions@) {
                table(*self, *ctx, instructions@, instructions@.len())
            } else {
                Seq::empty()
            }),
    {
        let n = instructions.len();
        let ghost program = instructions@;
        let epilogue = lay.epilogue;
        let closing = need_error_stub && n > 0 && {
            let op = instructions[n - 1].opcode;
            !(op == OperationCode::JMP || op == OperationCode::CALL || op == OperationCode::RET)
        };
        assert(closing == closing_jump(program));

        // A program with `RET` has the error stub right after its last
        // instruction: a trailing jump to the epilogue keeps a fall-through
        // off it (running past the end exits silently). `jmp rel32`
        if closing {
            emit(code, &[0xE9]);
            let pos = code.len();
            emit(code, &rel32_field(pos, epilogue));
        }

        // The error stub: `RET` on an empty call stack reports the failure
        // and falls through to the epilogue. `mov rax, EMPTY_CALL_STACK`,
        // `mov [<status cell>], rax`
        if need_error_stub {
            emit(code, &[0x48, 0xC7, 0xC0]);
            emit(code, &crate::bytes::u32_to_le_bytes(VmcallOut::EMPTY_CALL_STACK as u32));
            emit(code, &[0x48, 0xA3]);
            emit_u64(code, ctx.out);
        }

        // The epilogue: `ret`. Out-of-range jumps land here.
        code.push(0xC3);
        let ghost ended_code = code@;
        assert(ended_code.len() == epilogue + 1);

        // The address table follows the final `ret`, 8-byte aligned (the
        // padding `nop`s never run).
        if need_table {
            let pad: usize = (8 - (epilogue + 1) % 8) % 8;
            let table_start: usize = epilogue + 1 + pad;
            while code.len() % 8 != 0
                invariant
                    code@.len() <= table_start,
                    epilogue + 1 <= code@.len(),
                    table_start == epilogue + 1 + pad,
                    pad == (8 - (epilogue + 1) % 8) % 8,
                    code@ == ended_code + Seq::new((code@.len() - (epilogue + 1)) as nat, |k: int| 0x90u8),
                    ended_code.len() == epilogue + 1,
                decreases table_start - code@.len(),
            {
                code.push(0x90);
                assert(code@ =~= ended_code + Seq::new((code@.len() - (epilogue + 1)) as nat, |k: int| 0x90u8));
            }
            assert(code@.len() == table_start);
            self.emit_table(code, instructions, ctx, lay);
        }
        proof {
            if !need_table {
                assert(Seq::new(padding(*self, *ctx, program), |k: int| 0x90u8) =~= Seq::<u8>::empty());
            }
        }
    }

    /// Generates the machine code of a program (see [`generated`]) and
    /// whether it reports into the status cell; the error of the first
    /// instruction that cannot be lowered, if any.
    pub fn generate(&mut self, instructions: &[Instruction], ctx: &GenContext) -> (r: Result<GeneratedCode, VMError>)
        requires
            !(first_failure(*old(self), *ctx, instructions@, instructions@.len()) matches Some(Lowering::Panic)),
            within_reach(*old(self), *ctx, instructions@),
            ctx.code_base + REACH + 0x1000_0000 <= u64::MAX,
        ensures
            *final(self) == *old(self),
            match first_failure(*old(self), *ctx, instructions@, instructions@.len()) {
                Some(Lowering::Error(e)) => r matches Err(x) && x.kind == e,
                _ => r matches Ok(g) && g.bytes@ == generated(*old(self), *ctx, instructions@)
                    && g.has_status == (has_ret(instructions@) || has_vmcall(instructions@)),
            },
    {
        // Pre-scan: dynamic control flow needs the address table after the
        // code; `RET` additionally needs the error stub. Any `RET` or
        // `VMCALL` means execution can report into the out block.
        let (need_error_stub, any_dynamic, any_vmcall) = scan(instructions);
        let need_table = need_error_stub || any_dynamic;
        let has_status = need_error_stub || any_vmcall;

        // Pass 1: where each instruction starts.
        let (offsets, end) = match self.measure(instructions, ctx) {
            Ok(measured) => measured,
            Err(e) => {
                return Err(e);
            },
        };
        assert(first_failure(*self, *ctx, instructions@, instructions@.len()) is None);
        let lay = self.place(instructions, ctx, offsets, end, need_error_stub, need_table);

        // Pass 2: every instruction in place, with its targets resolved;
        // then what follows them.
        let mut machine_code = self.emit_body(instructions, ctx, &lay);
        self.emit_tail(&mut machine_code, instructions, ctx, &lay, need_error_stub, need_table);
        assert(machine_code@ =~= generated(*self, *ctx, instructions@));
        Ok(GeneratedCode { bytes: machine_code, has_status })
    }
}

/// Whether the operand names an existing register, if it is one.
fn operand_fits(k: OperandKind) -> (r: bool)
    ensures
        r == fits(k),
{
    match k {
        OperandKind::Register(r) => r.0 <= Register::MAX_INDEX,
        OperandKind::Immediate(_) => true,
    }
}

impl JITCodegen {
    /// What lowering one instruction comes to, without its bytes: `None`
    /// when it lowers, `Some(true)` when the generator would panic on it,
    /// `Some(false)` when it is an error.
    pub(crate) fn lowering_outcome(&self, instruction: &Instruction, ctx: &GenContext) -> (r: Option<bool>)
        ensures
            match lower(*self, *ctx, *instruction, 0, 0, blank()) {
                Lowering::Code(_) => r is None,
                Lowering::Panic => r == Some(true),
                Lowering::Error(_) => r == Some(false),
            },
    {
        proof {
            reveal(lower);
        }
        let count = instruction.operand_count();
        let a = match instruction.operand1 {
            Some(o) => Some(o.kind),
            None => None,
        };
        let b = match instruction.operand2 {
            Some(o) => Some(o.kind),
            None => None,
        };
        let c = match instruction.operand3 {
            Some(o) => Some(o.kind),
            None => None,
        };
        match instruction.opcode {
            OperationCode::NOP => None,
            OperationCode::RET => if count != 0 {
                Some(false)
            } else {
                None
            },
            OperationCode::MOVE => match (a, b, c) {
                (Some(OperandKind::Register(d)), Some(s), None) => if d.0 <= Register::MAX_INDEX
                    && operand_fits(s) {
                    None
                } else {
                    Some(false)
                },
                _ => Some(false),
            },
            OperationCode::JMP | OperationCode::CALL => if count != 1 {
                Some(false)
            } else {
                match a {
                    None => Some(true),
                    Some(k) => if operand_fits(k) {
                        None
                    } else {
                        Some(false)
                    },
                }
            },
            OperationCode::STORE8 | OperationCode::STORE16 | OperationCode::STORE32
            | OperationCode::STORE64 | OperationCode::JZ | OperationCode::JNZ => if count != 2 {
                Some(false)
            } else {
                match (a, b) {
                    (Some(x), Some(y)) => if operand_fits(x) && operand_fits(y) {
                        None
                    } else {
                        Some(false)
                    },
                    _ => Some(true),
                }
            },
            OperationCode::INEG | OperationCode::NOT | OperationCode::FNEG | OperationCode::LOAD8
            | OperationCode::LOAD16 | OperationCode::LOAD32 | OperationCode::LOAD64 => if count != 2 {
                Some(false)
            } else {
                match (a, b) {
                    (Some(OperandKind::Register(d)), Some(y)) => if d.0 <= Register::MAX_INDEX
                        && operand_fits(y) {
                        None
                    } else {
                        Some(false)
                    },
                    (Some(OperandKind::Immediate(_)), Some(_)) => Some(false),
                    _ => Some(true),
                }
            },
            OperationCode::VMCALL => if count != 3 {
                Some(false)
            } else {
                match (a, b, c) {
                    (Some(x), Some(y), Some(z)) => if operand_fits(x) && operand_fits(y)
                        && operand_fits(z) {
                        None
                    } else {
                        Some(false)
                    },
                    _ => Some(true),
                }
            },
            _ => if count != 3 {
                Some(false)
            } else {
                match (a, b, c) {
                    (Some(OperandKind::Register(d)), Some(y), Some(z)) => if d.0
                        <= Register::MAX_INDEX && operand_fits(y) && operand_fits(z) {
                        None
                    } else {
                        Some(false)
                    },
                    _ => Some(false),
                }
            },
        }
    }

    /// Whether [`JITCodegen::generate`] takes the program: the first
    /// instruction that cannot be lowered, if any, is an error rather than a
    /// panic of the generator, and the code stays within [`REACH`] (see
    /// [`within_reach`]).
    #[verifier::rlimit(60)]
    pub fn can_generate(&self, instructions: &[Instruction], ctx: &GenContext) -> (r: bool)
        ensures
            r == (!(first_failure(*self, *ctx, instructions@, instructions@.len()) matches Some(
                Lowering::Panic,
            )) && within_reach(*self, *ctx, instructions@)),
    {
        let n = instructions.len();
        let ghost program = instructions@;
        let blank_layout = Layout { offsets: Vec::new(), epilogue: 0, error_stub: 0, table_base: 0, table_len: 0 };
        assert(blank_layout.offsets@.map_values(|o: usize| o as int) =~= Seq::<int>::empty());
        assert(blank_layout.targets() =~= blank());
        // Where the next instruction starts, as the first pass measures it.
        let mut size: usize = 0;
        let mut k: usize = 0;
        while k < n
            invariant
                n == program.len(),
                program == instructions@,
                k <= n,
                blank_layout.targets() == blank(),
                blank_layout.bounded(),
                first_failure(*self, *ctx, program, k as nat) is None,
                size == start_of(*self, *ctx, program, k as nat),
                size <= REACH,
            decreases n - k,
        {
            let outcome = self.lowering_outcome(&instructions[k], ctx);
            proof {
                lemma_lower_shape(*self, *ctx, program[k as int], k as int, 0, blank());
                lemma_lower_shape(*self, *ctx, program[k as int], 0, 0, blank());
                assert(((k + 1) - 1) as nat == k as nat);
                if outcome is Some {
                    lemma_first_failure_stays(*self, *ctx, program, (k + 1) as nat, n as nat);
                }
            }
            match outcome {
                Some(panics) => {
                    proof {
                        let l = lower(*self, *ctx, program[k as int], k as int, 0, blank());
                        assert(first_failure(*self, *ctx, program, (k + 1) as nat) == Some(l));
                        assert(panics == (l is Panic));
                        assert forall|j: nat|
                            j <= program.len() && #[trigger] first_failure(*self, *ctx, program, j)
                                is None implies start_of(*self, *ctx, program, j) <= REACH by {
                            if j > k {
                                lemma_first_failure_stays(*self, *ctx, program, (k + 1) as nat, j);
                            } else {
                                lemma_starts(*self, *ctx, program, j, k as nat);
                            }
                        }
                    }
                    return !panics;
                },
                None => {},
            }
            // The length of its bytes, lowered on their own.
            let mut piece: Vec<u8> = Vec::new();
            let _ = self.lower_instruction(&instructions[k], 0, ctx, &blank_layout, &mut piece);
            let next = size + piece.len();
            if next > REACH {
                proof {
                    assert(first_failure(*self, *ctx, program, (k + 1) as nat) is None);
                }
                return false;
            }
            size = next;
            k = k + 1;
        }
        // Where the code ends: the closing jump, the error stub, the
        // epilogue, and the aligned address table.
        let (need_error_stub, any_dynamic, _) = scan(instructions);
        let need_table = need_error_stub || any_dynamic;
        let closing = need_error_stub && n > 0 && {
            let op = instructions[n - 1].opcode;
            !(op == OperationCode::JMP || op == OperationCode::CALL || op == OperationCode::RET)
        };
        let stub: usize = if closing { size + 5 } else { size };
        let epilogue: usize = if need_error_stub { stub + 17 } else { stub };
        proof {
            assert(closing == closing_jump(program));
            assert forall|j: nat|
                j <= program.len() && #[trigger] first_failure(*self, *ctx, program, j) is None implies start_of(
                    *self,
                    *ctx,
                    program,
                    j,
                ) <= REACH by {
                lemma_starts(*self, *ctx, program, j, n as nat);
            }
        }
        if !need_table {
            return epilogue + 1 <= REACH;
        }
        if n > REACH {
            return false;
        }
        let table_start: usize = epilogue + 1 + (8 - (epilogue + 1) % 8) % 8;
        (table_start as u64) + 8 * (n as u64) <= REACH as u64
    }
}

} // verus!
