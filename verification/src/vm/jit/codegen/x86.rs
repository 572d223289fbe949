//! # x86 code generator
//!
//! [`JITCodegen::generate_x86`] turns a program into one flat blob of
//! 32-bit x86 machine code. The layout and the two passes are those of the
//! x64 generator (see [`super::x64`]); what differs is described here.
//!
//! ## Register model
//!
//! A W8 value is always handled as a pair of 32-bit halves: `EAX` (low) and
//! `EDX` (high) for the first operand and the result, `ECX` (low) and `EBX`
//! (high) for the second. The high half of a register lives 4 bytes past
//! the start of its cell.
//!
//! ## Frame and calls
//!
//! The generated function starts by saving `EBX`, `ESI` and `EDI` and
//! reserving 16 bytes of stack (which keeps the stack 16-byte aligned at
//! every call), and every exit goes through the epilogue that undoes it.
//! Trampolines follow `cdecl`: the arguments go into a stack frame reserved
//! around the `call`, a `u64` argument takes two slots, and a `u64` outcome
//! comes back in `EDX:EAX`.
//!
//! ## Falling off the end
//!
//! As in x64 code, a program with `RET` whose last instruction may fall
//! through ends with a jump to the epilogue, over the error stub: running
//! past the end of the program exits silently.
//!
//! ## Division
//!
//! 32-bit x86 has no 64-bit divide, so `SDIV`, `UDIV`, `SREM` and `UREM`
//! call helpers of the host (see [`crate::vm::jit::divide_for_code`]); a
//! zero divisor reports [`VmcallOut::DIVISION_BY_ZERO`] and leaves through
//! the epilogue.
//!
//! ## Addresses
//!
//! Every address baked into the code is 32 bits wide: the generator takes
//! the machine's state, the `ctx` cells and the trampolines to lie below
//! 4 GiB (see [`addressable`]), as they do on a 32-bit host.
use vstd::prelude::*;

use crate::bytes::u32_le_bytes;
use crate::isa::instruction::Instruction;
use crate::isa::opcode::OperationCode;
use crate::isa::operand::OperandKind;
use crate::isa::register::Register;
use crate::vm::err::{VMError, VMErrorKind};
use crate::vm::jit::codegen::x64::{
    appended, blank, check_register, code_of, count_error, register_error, emit, fits, float_condition, float_op, produced, rel32,
    rel32_field, same_shape, closing_jump, has_ret, has_vmcall, needs_table, has_register_target, register_target, target_offset, type_error, with_destination_one, with_destination_two,
    with_one, with_three, with_two, Layout, Lowering, Targets, REACH,
};
use crate::vm::jit::codegen::{GenContext, GeneratedCode, JITCodegen, VmcallOut};

verus! {

// ====== Addresses ======

/// `2^32`: the size of the 32-bit address space.
pub open spec fn four_gib() -> int {
    0x1_0000_0000
}

/// Whether every address that the generated code embeds, apart from those
/// of the code itself, is a 32-bit address: the register file (as a whole),
/// the call stack, the machine, the cells of `ctx` and the trampolines.
pub open spec fn addressable(cg: JITCodegen, ctx: GenContext) -> bool {
    &&& cg.registers_base() + 8 * 255 <= four_gib()
    &&& cg.stack_address() < four_gib()
    &&& ctx.wvm < four_gib()
    &&& ctx.out + 4 < four_gib()
    &&& ctx.membase_addr < four_gib()
    &&& ctx.scratch_addr < four_gib()
    &&& ctx.call_push < four_gib()
    &&& ctx.call_pop < four_gib()
    &&& ctx.vmcall < four_gib()
    &&& ctx.sdiv < four_gib()
    &&& ctx.udiv < four_gib()
    &&& ctx.srem < four_gib()
    &&& ctx.urem < four_gib()
}

/// The four little-endian bytes of a 32-bit address.
pub open spec fn le32(address: u64) -> Seq<u8> {
    u32_le_bytes(address as u32)
}

/// The 32-bit address of the cell of register `r`.
pub open spec fn cell(cg: JITCodegen, r: Register) -> u32 {
    cg.register_address(r.0 as int) as u32
}

/// The address of the high half of the cell of register `r`.
pub open spec fn cell_hi(cg: JITCodegen, r: Register) -> u32 {
    vstd::wrapping::u32_specs::wrapping_add(cell(cg, r), 4)
}

/// The low 32 bits of a value.
pub open spec fn low(v: u64) -> u32 {
    (v % 0x1_0000_0000) as u32
}

/// The high 32 bits of a value.
pub open spec fn high(v: u64) -> u32 {
    (v / 0x1_0000_0000) as u32
}

// ====== The bytes of the generated code ======

/// `mov eax, <low half of the operand>`.
pub open spec fn eax_from(cg: JITCodegen, k: OperandKind) -> Seq<u8> {
    match k {
        OperandKind::Register(r) => seq![0xA1u8] + u32_le_bytes(cell(cg, r)),
        OperandKind::Immediate(v) => seq![0xB8u8] + u32_le_bytes(low(v)),
    }
}

/// `mov edx, <high half of the operand>`.
pub open spec fn edx_from(cg: JITCodegen, k: OperandKind) -> Seq<u8> {
    match k {
        OperandKind::Register(r) => seq![0x8Bu8, 0x15u8] + u32_le_bytes(cell_hi(cg, r)),
        OperandKind::Immediate(v) => seq![0xBAu8] + u32_le_bytes(high(v)),
    }
}

/// `mov ecx, <low half of the operand>`.
pub open spec fn ecx_from(cg: JITCodegen, k: OperandKind) -> Seq<u8> {
    match k {
        OperandKind::Register(r) => seq![0x8Bu8, 0x0Du8] + u32_le_bytes(cell(cg, r)),
        OperandKind::Immediate(v) => seq![0xB9u8] + u32_le_bytes(low(v)),
    }
}

/// `mov ebx, <high half of the operand>`.
pub open spec fn ebx_from(cg: JITCodegen, k: OperandKind) -> Seq<u8> {
    match k {
        OperandKind::Register(r) => seq![0x8Bu8, 0x1Du8] + u32_le_bytes(cell_hi(cg, r)),
        OperandKind::Immediate(v) => seq![0xBBu8] + u32_le_bytes(high(v)),
    }
}

/// The operand into `EDX:EAX`.
pub open spec fn first_pair(cg: JITCodegen, k: OperandKind) -> Seq<u8> {
    eax_from(cg, k) + edx_from(cg, k)
}

/// The operand into `EBX:ECX`.
pub open spec fn second_pair(cg: JITCodegen, k: OperandKind) -> Seq<u8> {
    ecx_from(cg, k) + ebx_from(cg, k)
}

/// `EDX:EAX` into the cell of `d`.
pub open spec fn pair_to(cg: JITCodegen, d: Register) -> Seq<u8> {
    seq![0xA3u8] + u32_le_bytes(cell(cg, d)) + seq![0x89u8, 0x15u8] + u32_le_bytes(cell_hi(cg, d))
}

/// The two integer sources in `EDX:EAX` and `EBX:ECX`.
pub open spec fn integer_operands(cg: JITCodegen, l: OperandKind, r: OperandKind) -> Seq<u8> {
    first_pair(cg, l) + second_pair(cg, r)
}

/// The operation of an integer instruction on both pairs, leaving the
/// result in `EDX:EAX` (the low halves first, then the high halves with the
/// carry or borrow).
pub open spec fn pair_op(op: OperationCode) -> Seq<u8> {
    match op {
        OperationCode::IADD => seq![0x01u8, 0xC8u8, 0x11u8, 0xDAu8],
        OperationCode::ISUB => seq![0x29u8, 0xC8u8, 0x19u8, 0xDAu8],
        OperationCode::AND => seq![0x21u8, 0xC8u8, 0x21u8, 0xDAu8],
        OperationCode::OR => seq![0x09u8, 0xC8u8, 0x09u8, 0xDAu8],
        _ => seq![0x31u8, 0xC8u8, 0x31u8, 0xDAu8],
    }
}

/// The low 64 bits of the product of `EDX:EAX` and `EBX:ECX`, from three
/// 32-bit `mul`s on the operands spilled to the stack.
pub open spec fn imul_body() -> Seq<u8> {
    seq![0x83u8, 0xECu8, 0x10u8] + seq![0x89u8, 0x04u8, 0x24u8] + seq![0x89u8, 0x54u8, 0x24u8, 0x04u8]
        + seq![0x89u8, 0x4Cu8, 0x24u8, 0x08u8] + seq![0x89u8, 0x5Cu8, 0x24u8, 0x0Cu8] + seq![
        0x8Bu8,
        0x04u8,
        0x24u8,
    ] + seq![0xF7u8, 0x64u8, 0x24u8, 0x08u8] + seq![0x89u8, 0xC1u8] + seq![0x89u8, 0xD3u8] + seq![
        0x8Bu8,
        0x04u8,
        0x24u8,
    ] + seq![0xF7u8, 0x64u8, 0x24u8, 0x0Cu8] + seq![0x01u8, 0xC3u8] + seq![
        0x8Bu8,
        0x44u8,
        0x24u8,
        0x04u8,
    ] + seq![0xF7u8, 0x64u8, 0x24u8, 0x08u8] + seq![0x01u8, 0xC3u8] + seq![0x89u8, 0xC8u8] + seq![
        0x89u8,
        0xDAu8,
    ] + seq![0x83u8, 0xC4u8, 0x10u8]
}

/// The four little-endian bytes of a short forward displacement.
pub open spec fn ahead(d: u32) -> Seq<u8> {
    u32_le_bytes(d)
}

/// A 64-bit shift of `EDX:EAX` by `ECX`: the count is masked to 6 bits,
/// and a count of 32 or more moves one half into the other.
pub open spec fn shift_body(op: OperationCode) -> Seq<u8> {
    let head = seq![0x83u8, 0xE1u8, 0x3Fu8] + seq![0x83u8, 0xF9u8, 0x20u8];
    match op {
        OperationCode::LSL => head + seq![0x0Fu8, 0x82u8] + ahead(14) + seq![0x83u8, 0xE9u8, 0x20u8]
            + seq![0x89u8, 0xC2u8] + seq![0x31u8, 0xC0u8] + seq![0xD3u8, 0xE2u8] + seq![0xE9u8]
            + ahead(5) + seq![0x0Fu8, 0xA5u8, 0xC2u8] + seq![0xD3u8, 0xE0u8],
        OperationCode::LSR => head + seq![0x0Fu8, 0x82u8] + ahead(14) + seq![0x83u8, 0xE9u8, 0x20u8]
            + seq![0x89u8, 0xD0u8] + seq![0x31u8, 0xD2u8] + seq![0xD3u8, 0xE8u8] + seq![0xE9u8]
            + ahead(5) + seq![0x0Fu8, 0xADu8, 0xD0u8] + seq![0xD3u8, 0xEAu8],
        _ => head + seq![0x0Fu8, 0x82u8] + ahead(15) + seq![0x83u8, 0xE9u8, 0x20u8] + seq![
            0x89u8,
            0xD0u8,
        ] + seq![0xD3u8, 0xF8u8] + seq![0xC1u8, 0xFAu8, 0x1Fu8] + seq![0xE9u8] + ahead(5) + seq![
            0x0Fu8,
            0xADu8,
            0xD0u8,
        ] + seq![0xD3u8, 0xFAu8],
    }
}

/// The two-byte `Jcc rel32` opcodes that an ordered comparison takes:
/// when the high halves differ in one direction, in the other, and on the
/// low halves.
pub open spec fn ordering_jumps(op: OperationCode) -> (Seq<u8>, Seq<u8>, Seq<u8>) {
    let jb = seq![0x0Fu8, 0x82u8];
    let jae = seq![0x0Fu8, 0x83u8];
    let jbe = seq![0x0Fu8, 0x86u8];
    let ja = seq![0x0Fu8, 0x87u8];
    let jl = seq![0x0Fu8, 0x8Cu8];
    let jg = seq![0x0Fu8, 0x8Fu8];
    match op {
        OperationCode::SLT => (jl, jg, jb),
        OperationCode::SLE => (jl, jg, jbe),
        OperationCode::SGT => (jg, jl, ja),
        OperationCode::SGE => (jg, jl, jae),
        OperationCode::ULT => (jb, ja, jb),
        OperationCode::ULE => (jb, ja, jbe),
        OperationCode::UGT => (ja, jb, ja),
        _ => (ja, jb, jae),
    }
}

/// The two's-complement value of a 32-bit word.
pub open spec fn signed32(x: u32) -> int {
    if x < 0x8000_0000 {
        x as int
    } else {
        x - 0x1_0000_0000
    }
}

/// Whether `Jcc` with the condition byte `cc` (of its `0F cc` form) jumps
/// after `cmp a, b`, as the x86 instruction set defines the conditions
/// (Intel SDM, vol. 2, `Jcc`): below and above order the unsigned values,
/// less and greater the signed ones.
pub open spec fn jcc_taken(cc: u8, a: u32, b: u32) -> bool {
    if cc == 0x82 {
        a < b
    } else if cc == 0x83 {
        a >= b
    } else if cc == 0x84 {
        a == b
    } else if cc == 0x85 {
        a != b
    } else if cc == 0x86 {
        a <= b
    } else if cc == 0x87 {
        a > b
    } else if cc == 0x8C {
        signed32(a) < signed32(b)
    } else if cc == 0x8D {
        signed32(a) >= signed32(b)
    } else if cc == 0x8E {
        signed32(a) <= signed32(b)
    } else if cc == 0x8F {
        signed32(a) > signed32(b)
    } else {
        false
    }
}

/// The flag that an ordered comparison `c` (laid out as [`compare_body`]
/// lays it out) leaves in `EAX` for `EDX:EAX = l` and `EBX:ECX = r`: after
/// `cmp edx, ebx`, the jump at byte 3 goes to `mov eax, 1` and the one at
/// byte 9 to `xor eax, eax`; otherwise, after `cmp eax, ecx`, the jump at
/// byte 17 goes to `mov eax, 1`, and the code falls to `xor eax, eax`.
pub open spec fn ordered_flag(c: Seq<u8>, l: u64, r: u64) -> u64 {
    if jcc_taken(c[3], high(l), high(r)) {
        1
    } else if jcc_taken(c[9], high(l), high(r)) {
        0
    } else if jcc_taken(c[17], low(l), low(r)) {
        1
    } else {
        0
    }
}

/// The ordered comparisons of 32-bit code compute, on every pair of 64-bit
/// values, what the instruction means (see
/// [`crate::vm::semantics::int_binary`]): the high halves decide first
/// (signed for the signed comparisons), and on equal high halves the low
/// halves decide, always unsigned.
pub proof fn lemma_ordered_compare_computes(op: OperationCode, l: u64, r: u64)
    requires
        op == OperationCode::SLT || op == OperationCode::SLE || op == OperationCode::SGT || op
            == OperationCode::SGE || op == OperationCode::ULT || op == OperationCode::ULE || op
            == OperationCode::UGT || op == OperationCode::UGE,
    ensures
        ordered_flag(compare_body(op), l, r) == crate::vm::semantics::int_binary(op, l, r),
{
    lemma_ahead(19);
    lemma_ahead(23);
    lemma_ahead(5);
    lemma_ahead(10);
    lemma_ahead(2);
    let c = compare_body(op);
    let (below, above, lo) = ordering_jumps(op);
    assert(c[3] == below[1] && c[9] == above[1] && c[17] == lo[1]);
    lemma_halves(l);
    lemma_halves(r);
}

/// The flag that an equality comparison `c` (laid out as [`compare_body`]
/// lays it out for `IEQ` and `INE`) leaves in `EAX`: after `cmp edx, ebx`,
/// the jump at byte 3 skips to the flag of unequal values, and so does the
/// jump at byte 11 after `cmp eax, ecx`.
pub open spec fn equality_flag(c: Seq<u8>, equal: u64, l: u64, r: u64) -> u64 {
    if jcc_taken(c[3], high(l), high(r)) || jcc_taken(c[11], low(l), low(r)) {
        (1 - equal) as u64
    } else {
        equal
    }
}

/// `IEQ` and `INE` of 32-bit code compute, on every pair of 64-bit values,
/// what the instruction means: the values are equal exactly when both
/// halves are.
pub proof fn lemma_equality_compare_computes(l: u64, r: u64)
    ensures
        equality_flag(compare_body(OperationCode::IEQ), 1, l, r) == crate::vm::semantics::int_binary(
            OperationCode::IEQ,
            l,
            r,
        ),
        equality_flag(compare_body(OperationCode::INE), 0, l, r) == crate::vm::semantics::int_binary(
            OperationCode::INE,
            l,
            r,
        ),
{
    lemma_ahead(18);
    lemma_ahead(10);
    lemma_ahead(15);
    lemma_ahead(7);
    lemma_ahead(2);
    lemma_ahead(5);
    lemma_halves(l);
    lemma_halves(r);
}

/// What the two instructions `code` do to `EDX:EAX`, given `EDX:EAX = l`
/// and `EBX:ECX = r`, for the pairs that the x86 instruction set defines
/// (Intel SDM, vol. 2): `add eax, ecx; adc edx, ebx` (the carry of the low
/// halves into the high ones), `sub eax, ecx; sbb edx, ebx` (the borrow),
/// and `and`, `or`, `xor` of each half. `None` for any other bytes.
pub open spec fn pair_effect(code: Seq<u8>, l: u64, r: u64) -> Option<u64> {
    let (lh, ll, rh, rl) = (high(l) as int, low(l) as int, high(r) as int, low(r) as int);
    if code.len() != 4 {
        None
    } else if code == seq![0x01u8, 0xC8u8, 0x11u8, 0xDAu8] {
        let carry: int = if ll + rl >= 0x1_0000_0000 { 1 } else { 0 };
        Some((((lh + rh + carry) % 0x1_0000_0000) * 0x1_0000_0000 + (ll + rl) % 0x1_0000_0000) as u64)
    } else if code == seq![0x29u8, 0xC8u8, 0x19u8, 0xDAu8] {
        let borrow: int = if ll < rl { 1 } else { 0 };
        Some((((lh - rh - borrow) % 0x1_0000_0000) * 0x1_0000_0000 + (ll - rl) % 0x1_0000_0000) as u64)
    } else if code == seq![0x21u8, 0xC8u8, 0x21u8, 0xDAu8] {
        Some((((high(l) & high(r)) as u64) * 0x1_0000_0000 + ((low(l) & low(r)) as u64)) as u64)
    } else if code == seq![0x09u8, 0xC8u8, 0x09u8, 0xDAu8] {
        Some((((high(l) | high(r)) as u64) * 0x1_0000_0000 + ((low(l) | low(r)) as u64)) as u64)
    } else if code == seq![0x31u8, 0xC8u8, 0x31u8, 0xDAu8] {
        Some((((high(l) ^ high(r)) as u64) * 0x1_0000_0000 + ((low(l) ^ low(r)) as u64)) as u64)
    } else {
        None
    }
}

/// `IADD`, `ISUB`, `AND`, `OR` and `XOR` of 32-bit code compute, on every
/// pair of 64-bit values, what the instruction means (see
/// [`crate::vm::semantics::int_binary`]): the carry and the borrow of the
/// low halves reach the high ones.
pub proof fn lemma_pair_ops_compute(op: OperationCode, l: u64, r: u64)
    requires
        op == OperationCode::IADD || op == OperationCode::ISUB || op == OperationCode::AND || op
            == OperationCode::OR || op == OperationCode::XOR,
    ensures
        pair_effect(pair_op(op), l, r) == Some(crate::vm::semantics::int_binary(op, l, r)),
{
    let add = seq![0x01u8, 0xC8u8, 0x11u8, 0xDAu8];
    let sub = seq![0x29u8, 0xC8u8, 0x19u8, 0xDAu8];
    let and = seq![0x21u8, 0xC8u8, 0x21u8, 0xDAu8];
    let or = seq![0x09u8, 0xC8u8, 0x09u8, 0xDAu8];
    let xor = seq![0x31u8, 0xC8u8, 0x31u8, 0xDAu8];
    assert(add[0] != sub[0] && add[0] != and[0] && add[0] != or[0] && add[0] != xor[0]);
    assert(sub[0] != and[0] && sub[0] != or[0] && sub[0] != xor[0]);
    assert(and[0] != or[0] && and[0] != xor[0] && or[0] != xor[0]);
    if op == OperationCode::IADD {
        assert(pair_op(op) =~= add);
        lemma_pair_add(l, r);
    } else if op == OperationCode::ISUB {
        assert(pair_op(op) =~= sub);
        lemma_pair_sub(l, r);
    } else if op == OperationCode::AND {
        assert(pair_op(op) =~= and);
        lemma_pair_bits(l, r);
    } else if op == OperationCode::OR {
        assert(pair_op(op) =~= or);
        lemma_pair_bits(l, r);
    } else {
        assert(pair_op(op) =~= xor);
        lemma_pair_bits(l, r);
    }
}

/// `add eax, ecx; adc edx, ebx` is the 64-bit sum modulo `2^64`.
proof fn lemma_pair_add(l: u64, r: u64)
    ensures
        ({
            let (lh, ll, rh, rl) = (high(l) as int, low(l) as int, high(r) as int, low(r) as int);
            let carry: int = if ll + rl >= 0x1_0000_0000 { 1 } else { 0 };
            (((lh + rh + carry) % 0x1_0000_0000) * 0x1_0000_0000 + (ll + rl) % 0x1_0000_0000) as u64
                == vstd::wrapping::u64_specs::wrapping_add(l, r)
        }),
{
    lemma_halves(l);
    lemma_halves(r);
    let (lh, ll, rh, rl) = (high(l) as int, low(l) as int, high(r) as int, low(r) as int);
    let carry: int = if ll + rl >= 0x1_0000_0000 { 1 } else { 0 };
    let lo = ll + rl - carry * 0x1_0000_0000;
    assert((ll + rl) % 0x1_0000_0000 == lo);
    let hi = lh + rh + carry;
    if hi >= 0x1_0000_0000 {
        assert(hi % 0x1_0000_0000 == hi - 0x1_0000_0000);
    } else {
        assert(hi % 0x1_0000_0000 == hi);
    }
}

/// `sub eax, ecx; sbb edx, ebx` is the 64-bit difference modulo `2^64`.
proof fn lemma_pair_sub(l: u64, r: u64)
    ensures
        ({
            let (lh, ll, rh, rl) = (high(l) as int, low(l) as int, high(r) as int, low(r) as int);
            let borrow: int = if ll < rl { 1 } else { 0 };
            (((lh - rh - borrow) % 0x1_0000_0000) * 0x1_0000_0000 + (ll - rl) % 0x1_0000_0000) as u64
                == vstd::wrapping::u64_specs::wrapping_sub(l, r)
        }),
{
    lemma_halves(l);
    lemma_halves(r);
    let (lh, ll, rh, rl) = (high(l) as int, low(l) as int, high(r) as int, low(r) as int);
    let borrow: int = if ll < rl { 1 } else { 0 };
    let lo = ll - rl + borrow * 0x1_0000_0000;
    assert((ll - rl) % 0x1_0000_0000 == lo);
    let hi = lh - rh - borrow;
    if hi < 0 {
        assert(hi % 0x1_0000_0000 == hi + 0x1_0000_0000);
    } else {
        assert(hi % 0x1_0000_0000 == hi);
    }
}

/// `and`, `or` and `xor` of each half are those of the whole words.
proof fn lemma_pair_bits(l: u64, r: u64)
    ensures
        (((high(l) & high(r)) as u64) * 0x1_0000_0000 + ((low(l) & low(r)) as u64)) as u64 == l & r,
        (((high(l) | high(r)) as u64) * 0x1_0000_0000 + ((low(l) | low(r)) as u64)) as u64 == l | r,
        (((high(l) ^ high(r)) as u64) * 0x1_0000_0000 + ((low(l) ^ low(r)) as u64)) as u64 == l ^ r,
{
    let lh = l / 0x1_0000_0000;
    let rh = r / 0x1_0000_0000;
    let ll = l % 0x1_0000_0000;
    let rl = r % 0x1_0000_0000;
    assert(high(l) as u64 == lh && high(r) as u64 == rh && low(l) as u64 == ll && low(r) as u64 == rl);
    assert((high(l) & high(r)) as u64 == lh & rh) by (bit_vector)
        requires
            high(l) as u64 == lh,
            high(r) as u64 == rh,
    ;
    assert((low(l) & low(r)) as u64 == ll & rl) by (bit_vector)
        requires
            low(l) as u64 == ll,
            low(r) as u64 == rl,
    ;
    assert((high(l) | high(r)) as u64 == lh | rh) by (bit_vector)
        requires
            high(l) as u64 == lh,
            high(r) as u64 == rh,
    ;
    assert((low(l) | low(r)) as u64 == ll | rl) by (bit_vector)
        requires
            low(l) as u64 == ll,
            low(r) as u64 == rl,
    ;
    assert((high(l) ^ high(r)) as u64 == lh ^ rh) by (bit_vector)
        requires
            high(l) as u64 == lh,
            high(r) as u64 == rh,
    ;
    assert((low(l) ^ low(r)) as u64 == ll ^ rl) by (bit_vector)
        requires
            low(l) as u64 == ll,
            low(r) as u64 == rl,
    ;
    assert(((l / 0x1_0000_0000) & (r / 0x1_0000_0000)) * 0x1_0000_0000 + ((l % 0x1_0000_0000) & (r
        % 0x1_0000_0000)) == l & r) by (bit_vector);
    assert(((l / 0x1_0000_0000) | (r / 0x1_0000_0000)) * 0x1_0000_0000 + ((l % 0x1_0000_0000) | (r
        % 0x1_0000_0000)) == l | r) by (bit_vector);
    assert(((l / 0x1_0000_0000) ^ (r / 0x1_0000_0000)) * 0x1_0000_0000 + ((l % 0x1_0000_0000) ^ (r
        % 0x1_0000_0000)) == l ^ r) by (bit_vector);
}

/// A word is its high half times `2^32` plus its low half, and its
/// two's-complement value is the signed high half times `2^32` plus the low
/// half.
proof fn lemma_halves(x: u64)
    ensures
        x == high(x) * 0x1_0000_0000 + low(x),
        crate::vm::semantics::signed(x) == signed32(high(x)) * 0x1_0000_0000 + low(x),
{
}

/// `mov eax, 1`.
pub open spec fn eax_one() -> Seq<u8> {
    seq![0xB8u8, 0x01u8, 0x00u8, 0x00u8, 0x00u8]
}

/// A comparison of `EDX:EAX` with `EBX:ECX` into `EAX` (`1` or `0`): the
/// high halves first, then the low halves.
pub open spec fn compare_body(op: OperationCode) -> Seq<u8> {
    let jne = seq![0x0Fu8, 0x85u8];
    let cmp_hi = seq![0x39u8, 0xDAu8];
    let cmp_lo = seq![0x39u8, 0xC8u8];
    let zero = seq![0x31u8, 0xC0u8];
    match op {
        OperationCode::IEQ => cmp_hi + jne + ahead(18) + cmp_lo + jne + ahead(10) + eax_one() + seq![
            0xE9u8,
        ] + ahead(2) + zero,
        OperationCode::INE => cmp_hi + jne + ahead(15) + cmp_lo + jne + ahead(7) + zero + seq![0xE9u8]
            + ahead(5) + eax_one(),
        _ => {
            let (below, above, lo) = ordering_jumps(op);
            cmp_hi + below + ahead(19) + above + ahead(23) + cmp_lo + lo + ahead(5) + seq![0xE9u8]
                + ahead(10) + eax_one() + seq![0xE9u8] + ahead(2) + zero
        },
    }
}

/// The two floating-point sources in `XMM0` and `XMM1`, through a 16-byte
/// stack block that stays reserved until the result is stored.
pub open spec fn float_operands(cg: JITCodegen, l: OperandKind, r: OperandKind) -> Seq<u8> {
    integer_operands(cg, l, r) + seq![0x83u8, 0xECu8, 0x10u8] + seq![0x89u8, 0x04u8, 0x24u8] + seq![
        0x89u8,
        0x54u8,
        0x24u8,
        0x04u8,
    ] + seq![0xF2u8, 0x0Fu8, 0x10u8, 0x04u8, 0x24u8] + seq![0x89u8, 0x4Cu8, 0x24u8, 0x08u8]
        + seq![0x89u8, 0x5Cu8, 0x24u8, 0x0Cu8] + seq![0xF2u8, 0x0Fu8, 0x10u8, 0x4Cu8, 0x24u8, 0x08u8]
}

/// `XMM0` into `EDX:EAX` through the stack block, which is released.
pub open spec fn float_result() -> Seq<u8> {
    seq![0xF2u8, 0x0Fu8, 0x11u8, 0x04u8, 0x24u8] + seq![0x8Bu8, 0x04u8, 0x24u8] + seq![
        0x8Bu8,
        0x54u8,
        0x24u8,
        0x04u8,
    ] + seq![0x83u8, 0xC4u8, 0x10u8]
}

/// The remainder of `EDX:EAX` by `EBX:ECX` as doubles, with the x87 partial
/// remainder `fprem` repeated while the C2 status bit is set, into
/// `EDX:EAX`.
pub open spec fn frem_body() -> Seq<u8> {
    seq![0x83u8, 0xECu8, 0x10u8] + seq![0x89u8, 0x04u8, 0x24u8] + seq![0x89u8, 0x54u8, 0x24u8, 0x04u8]
        + seq![0x89u8, 0x4Cu8, 0x24u8, 0x08u8] + seq![0x89u8, 0x5Cu8, 0x24u8, 0x0Cu8] + seq![
        0xDDu8,
        0x44u8,
        0x24u8,
        0x08u8,
    ] + seq![0xDDu8, 0x04u8, 0x24u8] + seq![0xDEu8, 0xF8u8] + seq![0xDFu8, 0xE0u8] + seq![
        0xF6u8,
        0xC4u8,
        0x04u8,
    ] + seq![0x75u8, 0xF7u8] + seq![0xDDu8, 0x1Cu8, 0x24u8] + seq![0xDDu8, 0xD8u8] + seq![
        0x8Bu8,
        0x04u8,
        0x24u8,
    ] + seq![0x8Bu8, 0x54u8, 0x24u8, 0x04u8] + seq![0x83u8, 0xC4u8, 0x10u8]
}

/// `EDX` pointed at the byte of the machine's memory whose offset is in
/// `EAX`: the memory base is read from its cell, then the offset is added.
pub open spec fn memory_pointer(ctx: GenContext) -> Seq<u8> {
    seq![0xBAu8] + le32(ctx.membase_addr) + seq![0x8Bu8, 0x12u8] + seq![0x01u8, 0xC2u8]
}

/// The access of a `LOAD*` at `[edx]`, zero-extended into `EDX:EAX`.
pub open spec fn load_access(op: OperationCode) -> Seq<u8> {
    match op {
        OperationCode::LOAD8 => seq![0x0Fu8, 0xB6u8, 0x02u8] + seq![0x31u8, 0xD2u8],
        OperationCode::LOAD16 => seq![0x0Fu8, 0xB7u8, 0x02u8] + seq![0x31u8, 0xD2u8],
        OperationCode::LOAD32 => seq![0x8Bu8, 0x02u8] + seq![0x31u8, 0xD2u8],
        _ => seq![0x8Bu8, 0x02u8] + seq![0x8Bu8, 0x52u8, 0x04u8],
    }
}

/// The access of a `STORE*` at `[edx]` from the low part of `EBX:ECX`.
pub open spec fn store_access(op: OperationCode) -> Seq<u8> {
    match op {
        OperationCode::STORE8 => seq![0x88u8, 0x0Au8],
        OperationCode::STORE16 => seq![0x66u8, 0x89u8, 0x0Au8],
        OperationCode::STORE32 => seq![0x89u8, 0x0Au8],
        _ => seq![0x89u8, 0x0Au8] + seq![0x89u8, 0x5Au8, 0x04u8],
    }
}

// ====== Lowering one instruction ======

/// `MOVE`: exactly a register destination and a source in the first two
/// slots.
pub open spec fn lower_move(cg: JITCodegen, i: Instruction) -> Lowering {
    match (i.operand1, i.operand2, i.operand3) {
        (Some(a), Some(b), None) => match a.kind {
            OperandKind::Register(d) => if !d.is_valid() {
                register_error(OperandKind::Register(d))
            } else if !fits(b.kind) {
                register_error(b.kind)
            } else {
                Lowering::Code(first_pair(cg, b.kind) + pair_to(cg, d))
            },
            k => type_error(k),
        },
        _ => count_error(2, i),
    }
}

/// An integer operation of a destination and two sources, whose operation
/// on the two pairs is `operation`.
pub open spec fn lower_binary(cg: JITCodegen, i: Instruction, operation: Seq<u8>) -> Lowering {
    with_destination_two(
        i,
        |d: Register, l: OperandKind, r: OperandKind|
            integer_operands(cg, l, r) + operation + pair_to(cg, d),
    )
}

/// A shift: the value into `EDX:EAX`, the low half of the count into `ECX`.
pub open spec fn lower_shift(cg: JITCodegen, i: Instruction) -> Lowering {
    with_destination_two(
        i,
        |d: Register, l: OperandKind, r: OperandKind|
            first_pair(cg, l) + ecx_from(cg, r) + shift_body(i.opcode) + pair_to(cg, d),
    )
}

/// An integer comparison: `1` or `0` into `EAX`, a zero high half.
pub open spec fn lower_compare(cg: JITCodegen, i: Instruction) -> Lowering {
    with_destination_two(
        i,
        |d: Register, l: OperandKind, r: OperandKind|
            integer_operands(cg, l, r) + compare_body(i.opcode) + seq![0x31u8, 0xD2u8] + pair_to(cg, d),
    )
}

/// An operation of one source on `EDX:EAX`.
pub open spec fn lower_unary(cg: JITCodegen, i: Instruction, operation: Seq<u8>) -> Lowering {
    with_destination_one(
        i,
        |d: Register, s: OperandKind| first_pair(cg, s) + operation + pair_to(cg, d),
    )
}

/// A floating-point operation whose scalar double operation on `XMM0` and
/// `XMM1` is `operation`.
pub open spec fn lower_float(cg: JITCodegen, i: Instruction, operation: Seq<u8>) -> Lowering {
    with_destination_two(
        i,
        |d: Register, l: OperandKind, r: OperandKind|
            float_operands(cg, l, r) + operation + float_result() + pair_to(cg, d),
    )
}

/// A floating-point comparison whose condition after `ucomisd` is
/// `condition`.
pub open spec fn lower_fcompare(cg: JITCodegen, i: Instruction, condition: Seq<u8>) -> Lowering {
    with_destination_two(
        i,
        |d: Register, l: OperandKind, r: OperandKind|
            float_operands(cg, l, r) + seq![0x66u8, 0x0Fu8, 0x2Eu8, 0xC1u8] + condition + seq![
                0x0Fu8,
                0xB6u8,
                0xC0u8,
            ] + seq![0x83u8, 0xC4u8, 0x10u8] + seq![0x31u8, 0xD2u8] + pair_to(cg, d),
    )
}

/// `LOAD*`.
pub open spec fn lower_load(cg: JITCodegen, ctx: GenContext, i: Instruction) -> Lowering {
    with_destination_one(
        i,
        |d: Register, s: OperandKind|
            eax_from(cg, s) + memory_pointer(ctx) + load_access(i.opcode) + pair_to(cg, d),
    )
}

/// `STORE*`.
pub open spec fn lower_store(cg: JITCodegen, ctx: GenContext, i: Instruction) -> Lowering {
    with_two(
        i,
        |a: OperandKind, v: OperandKind|
            eax_from(cg, a) + second_pair(cg, v) + memory_pointer(ctx) + store_access(i.opcode),
    )
}

/// The lowering of an instruction whose bytes do not depend on where they
/// lie.
pub open spec fn lower_data(cg: JITCodegen, ctx: GenContext, i: Instruction) -> Lowering {
    let op = i.opcode;
    match op {
        OperationCode::NOP => Lowering::Code(seq![0x90u8]),
        OperationCode::MOVE => lower_move(cg, i),
        OperationCode::IADD | OperationCode::ISUB | OperationCode::AND | OperationCode::OR
        | OperationCode::XOR => lower_binary(cg, i, pair_op(op)),
        OperationCode::IMUL => lower_binary(cg, i, imul_body()),
        OperationCode::LSL | OperationCode::LSR | OperationCode::SAR => lower_shift(cg, i),
        OperationCode::INEG => lower_unary(cg, i, seq![0xF7u8, 0xD8u8, 0x83u8, 0xD2u8, 0x00u8, 0xF7u8, 0xDAu8]),
        OperationCode::NOT => lower_unary(cg, i, seq![0xF7u8, 0xD0u8, 0xF7u8, 0xD2u8]),
        OperationCode::IEQ | OperationCode::INE | OperationCode::SLT | OperationCode::SLE
        | OperationCode::SGT | OperationCode::SGE | OperationCode::ULT | OperationCode::ULE
        | OperationCode::UGT | OperationCode::UGE => lower_compare(cg, i),
        OperationCode::FADD | OperationCode::FSUB | OperationCode::FMUL
        | OperationCode::FDIV => lower_float(cg, i, float_op(op)),
        OperationCode::FREM => lower_binary(cg, i, frem_body()),
        OperationCode::FNEG => lower_unary(cg, i, seq![0x81u8, 0xF2u8, 0x00u8, 0x00u8, 0x00u8, 0x80u8]),
        OperationCode::FEQ | OperationCode::FNE | OperationCode::FLT | OperationCode::FLE
        | OperationCode::FGT | OperationCode::FGE => lower_fcompare(cg, i, float_condition(op)),
        OperationCode::LOAD8 | OperationCode::LOAD16 | OperationCode::LOAD32
        | OperationCode::LOAD64 => lower_load(cg, ctx, i),
        _ => lower_store(cg, ctx, i),
    }
}

// ====== Control flow ======

/// The dynamic jump that starts at `start`, to the instruction whose index
/// is in `EAX`: an index outside the address table goes to the epilogue.
pub open spec fn dynamic_jump(t: Targets, start: int) -> Seq<u8> {
    seq![0xBAu8] + le32(t.table_base) + seq![0xB9u8] + le32(t.table_len) + seq![0x39u8, 0xC8u8]
        + seq![0x0Fu8, 0x83u8] + rel32(start + 14, t.epilogue) + seq![0x8Bu8, 0x04u8, 0x82u8] + seq![
        0xFFu8,
        0xE0u8,
    ]
}

/// The call of the trampoline that pushes `ret` onto the call stack, with
/// its two arguments in a 16-byte frame.
pub open spec fn call_push(cg: JITCodegen, ctx: GenContext, ret: u64) -> Seq<u8> {
    seq![0x83u8, 0xECu8, 0x10u8] + seq![0xC7u8, 0x44u8, 0x24u8, 0x00u8] + le32(cg.stack_address())
        + seq![0xC7u8, 0x44u8, 0x24u8, 0x04u8] + le32(ret) + seq![0xB8u8] + le32(ctx.call_push)
        + seq![0xFFu8, 0xD0u8] + seq![0x83u8, 0xC4u8, 0x10u8]
}

/// The call of the `VMCALL` trampoline with the machine, the three operands
/// (two slots each) and the out block, leaving `EAX` or `EDX` nonzero when
/// the code must stop.
pub open spec fn vmcall_call(
    cg: JITCodegen,
    ctx: GenContext,
    service: OperandKind,
    address: OperandKind,
    size: OperandKind,
) -> Seq<u8> {
    seq![0x83u8, 0xECu8, 0x20u8] + seq![0xC7u8, 0x44u8, 0x24u8, 0x00u8] + le32(ctx.wvm) + first_pair(
        cg,
        service,
    ) + seq![0x89u8, 0x44u8, 0x24u8, 0x04u8] + seq![0x89u8, 0x54u8, 0x24u8, 0x08u8] + first_pair(
        cg,
        address,
    ) + seq![0x89u8, 0x44u8, 0x24u8, 0x0Cu8] + seq![0x89u8, 0x54u8, 0x24u8, 0x10u8] + first_pair(
        cg,
        size,
    ) + seq![0x89u8, 0x44u8, 0x24u8, 0x14u8] + seq![0x89u8, 0x54u8, 0x24u8, 0x18u8] + seq![0xB8u8]
        + le32(ctx.out) + seq![0x89u8, 0x44u8, 0x24u8, 0x1Cu8] + seq![0xB8u8] + le32(ctx.vmcall)
        + seq![0xFFu8, 0xD0u8] + seq![0x83u8, 0xC4u8, 0x20u8] + seq![0x09u8, 0xD0u8]
}

/// The helper that computes a division or remainder.
pub open spec fn division_helper(ctx: GenContext, op: OperationCode) -> u64 {
    match op {
        OperationCode::SDIV => ctx.sdiv,
        OperationCode::UDIV => ctx.udiv,
        OperationCode::SREM => ctx.srem,
        _ => ctx.urem,
    }
}

/// The call of a division helper on the two operands, with a pointer to a
/// result cell in the same frame and the out block: the result comes back
/// in `EDX:EAX` and the outcome (nonzero on a zero divisor) in `ECX`.
pub open spec fn division_call(
    cg: JITCodegen,
    ctx: GenContext,
    l: OperandKind,
    r: OperandKind,
    helper: u64,
) -> Seq<u8> {
    seq![0x83u8, 0xECu8, 0x20u8] + first_pair(cg, l) + seq![0x89u8, 0x04u8, 0x24u8] + seq![
        0x89u8,
        0x54u8,
        0x24u8,
        0x04u8,
    ] + first_pair(cg, r) + seq![0x89u8, 0x44u8, 0x24u8, 0x08u8] + seq![0x89u8, 0x54u8, 0x24u8, 0x0Cu8]
        + seq![0x89u8, 0xE0u8] + seq![0x83u8, 0xC0u8, 0x18u8] + seq![0x89u8, 0x44u8, 0x24u8, 0x10u8]
        + seq![0xB8u8] + le32(ctx.out) + seq![0x89u8, 0x44u8, 0x24u8, 0x14u8] + seq![0xB8u8] + le32(
        helper,
    ) + seq![0xFFu8, 0xD0u8] + seq![0x89u8, 0xC1u8] + seq![0x09u8, 0xD1u8] + seq![
        0x8Bu8,
        0x44u8,
        0x24u8,
        0x18u8,
    ] + seq![0x8Bu8, 0x54u8, 0x24u8, 0x1Cu8] + seq![0x83u8, 0xC4u8, 0x20u8] + seq![0x85u8, 0xC9u8]
}

/// `SDIV`, `UDIV`, `SREM` or `UREM` at `start`: a zero divisor leaves
/// through the epilogue.
pub open spec fn lower_division(cg: JITCodegen, ctx: GenContext, i: Instruction, start: int, t: Targets) -> Lowering {
    with_destination_two(
        i,
        |d: Register, l: OperandKind, r: OperandKind|
            {
                let call = division_call(cg, ctx, l, r, division_helper(ctx, i.opcode));
                call + seq![0x0Fu8, 0x85u8] + rel32(start + call.len() + 2, t.epilogue) + pair_to(cg, d)
            },
    )
}

/// `JMP` at `start`.
pub open spec fn lower_jmp(cg: JITCodegen, i: Instruction, start: int, t: Targets) -> Lowering {
    with_one(
        i,
        |a: OperandKind|
            match a {
                OperandKind::Immediate(v) => seq![0xE9u8] + rel32(
                    start + 1,
                    target_offset(t, (v as usize) as int),
                ),
                OperandKind::Register(_) => eax_from(cg, a) + dynamic_jump(t, start + 5),
            },
    )
}

/// `JZ` or `JNZ` at `start`: the full 64-bit condition is zero when both
/// halves are.
pub open spec fn lower_branch(cg: JITCodegen, i: Instruction, start: int, t: Targets) -> Lowering {
    let jz = i.opcode == OperationCode::JZ;
    with_two(
        i,
        |c: OperandKind, a: OperandKind|
            match a {
                OperandKind::Immediate(v) => first_pair(cg, c) + seq![0x09u8, 0xD0u8] + (if jz {
                    seq![0x0Fu8, 0x84u8]
                } else {
                    seq![0x0Fu8, 0x85u8]
                }) + rel32(start + first_pair(cg, c).len() + 4, target_offset(t, (v as usize) as int)),
                OperandKind::Register(_) => eax_from(cg, a) + second_pair(cg, c) + seq![0x09u8, 0xD9u8]
                    + (if jz {
                    seq![0x0Fu8, 0x85u8]
                } else {
                    seq![0x0Fu8, 0x84u8]
                }) + ahead(23) + dynamic_jump(t, start + 5 + second_pair(cg, c).len() + 8),
            },
    )
}

/// `CALL` at `start`, the `index`-th instruction: pushes `index + 1`.
pub open spec fn lower_call(
    cg: JITCodegen,
    ctx: GenContext,
    i: Instruction,
    index: int,
    start: int,
    t: Targets,
) -> Lowering {
    let push = call_push(cg, ctx, (index + 1) as u64);
    with_one(
        i,
        |a: OperandKind|
            match a {
                OperandKind::Immediate(v) => push + seq![0xE9u8] + rel32(
                    start + 30,
                    target_offset(t, (v as usize) as int),
                ),
                OperandKind::Register(_) => eax_from(cg, a) + seq![0x83u8, 0xECu8, 0x10u8] + seq![
                    0x89u8,
                    0x04u8,
                    0x24u8,
                ] + push + seq![0x8Bu8, 0x04u8, 0x24u8] + seq![0x83u8, 0xC4u8, 0x10u8] + dynamic_jump(
                    t,
                    start + 46,
                ),
            },
    )
}

/// `RET` at `start`.
pub open spec fn lower_ret(cg: JITCodegen, ctx: GenContext, i: Instruction, start: int, t: Targets) -> Lowering {
    if i.count() != 0 {
        count_error(0, i)
    } else {
        Lowering::Code(
            seq![0x83u8, 0xECu8, 0x10u8] + seq![0xC7u8, 0x44u8, 0x24u8, 0x00u8] + le32(cg.stack_address())
                + seq![0xB8u8] + le32(ctx.scratch_addr) + seq![0x89u8, 0x44u8, 0x24u8, 0x04u8] + seq![
                0xB8u8,
            ] + le32(ctx.call_pop) + seq![0xFFu8, 0xD0u8] + seq![0x83u8, 0xC4u8, 0x10u8] + seq![
                0x84u8,
                0xC0u8,
            ] + seq![0x0Fu8, 0x84u8] + rel32(start + 34, t.error_stub) + seq![0xA1u8] + le32(
                ctx.scratch_addr,
            ) + dynamic_jump(t, start + 43),
        )
    }
}

/// `VMCALL` at `start`.
pub open spec fn lower_vmcall(cg: JITCodegen, ctx: GenContext, i: Instruction, start: int, t: Targets) -> Lowering {
    with_three(
        i,
        |s: OperandKind, a: OperandKind, n: OperandKind|
            {
                let call = vmcall_call(cg, ctx, s, a, n);
                call + seq![0x0Fu8, 0x85u8] + rel32(start + call.len() + 2, t.epilogue)
            },
    )
}

/// Whether the bytes of the opcode depend on where they lie and on the
/// targets of the program.
pub open spec fn is_control(op: OperationCode) -> bool {
    op == OperationCode::JMP || op == OperationCode::JZ || op == OperationCode::JNZ || op
        == OperationCode::CALL || op == OperationCode::RET || op == OperationCode::VMCALL || op
        == OperationCode::SDIV || op == OperationCode::UDIV || op == OperationCode::SREM || op
        == OperationCode::UREM
}

/// The lowering of an instruction whose bytes depend on where they lie,
/// the `index`-th of the program, when its bytes start at `start` and the
/// jump targets are `t`.
pub open spec fn lower_control(
    cg: JITCodegen,
    ctx: GenContext,
    i: Instruction,
    index: int,
    start: int,
    t: Targets,
) -> Lowering {
    match i.opcode {
        OperationCode::JMP => lower_jmp(cg, i, start, t),
        OperationCode::JZ | OperationCode::JNZ => lower_branch(cg, i, start, t),
        OperationCode::CALL => lower_call(cg, ctx, i, index, start, t),
        OperationCode::RET => lower_ret(cg, ctx, i, start, t),
        OperationCode::VMCALL => lower_vmcall(cg, ctx, i, start, t),
        _ => lower_division(cg, ctx, i, start, t),
    }
}

/// The lowering of the instruction `i`, the `index`-th of the program, when
/// its bytes start at offset `start` and the jump targets are `t`.
#[verifier::opaque]
pub open spec fn lower(
    cg: JITCodegen,
    ctx: GenContext,
    i: Instruction,
    index: int,
    start: int,
    t: Targets,
) -> Lowering {
    if is_control(i.opcode) {
        lower_control(cg, ctx, i, index, start, t)
    } else {
        lower_data(cg, ctx, i)
    }
}

// ====== The whole program ======

/// The number of bytes that the lowering of `i` takes (wherever it lies
/// and whatever its targets are).
pub open spec fn piece_len(cg: JITCodegen, ctx: GenContext, i: Instruction) -> nat {
    code_of(lower(cg, ctx, i, 0, 0, blank())).len()
}

/// The first instruction among the first `k` of `program` that cannot be
/// lowered: its error, or its panic; `None` when all can.
pub open spec fn first_failure(cg: JITCodegen, ctx: GenContext, program: Seq<Instruction>, k: nat) -> Option<Lowering>
    decreases k,
{
    if k == 0 {
        None
    } else {
        match first_failure(cg, ctx, program, (k - 1) as nat) {
            Some(l) => Some(l),
            None => match lower(cg, ctx, program[k - 1], k - 1, 0, blank()) {
                Lowering::Code(_) => None,
                l => Some(l),
            },
        }
    }
}

/// The prologue: `push ebx`, `push esi`, `push edi`, `sub esp, 16`.
pub open spec fn prologue() -> Seq<u8> {
    seq![0x53u8, 0x56u8, 0x57u8, 0x83u8, 0xECu8, 0x10u8]
}

/// The epilogue: `add esp, 16`, `pop edi`, `pop esi`, `pop ebx`, `ret`.
pub open spec fn epilogue() -> Seq<u8> {
    seq![0x83u8, 0xC4u8, 0x10u8, 0x5Fu8, 0x5Eu8, 0x5Bu8, 0xC3u8]
}

/// Where the `k`-th instruction starts: after the prologue and the lengths
/// of those before it.
pub open spec fn start_of(cg: JITCodegen, ctx: GenContext, program: Seq<Instruction>, k: nat) -> int
    decreases k,
{
    if k == 0 {
        6
    } else {
        start_of(cg, ctx, program, (k - 1) as nat) + piece_len(cg, ctx, program[k - 1])
    }
}

/// Whether the instruction divides (through a helper, which reports a zero
/// divisor into the status cell).
pub open spec fn is_division(op: OperationCode) -> bool {
    op == OperationCode::SDIV || op == OperationCode::UDIV || op == OperationCode::SREM || op
        == OperationCode::UREM
}

/// Whether the program has a division or remainder.
pub open spec fn has_division(program: Seq<Instruction>) -> bool {
    exists|k: int| 0 <= k < program.len() && is_division(#[trigger] program[k].opcode)
}

/// The error stub of `RET` on an empty call stack: both halves of the status
/// cell are written (`EMPTY_CALL_STACK`), then on into the epilogue.
pub open spec fn error_stub(ctx: GenContext) -> Seq<u8> {
    seq![0xC7u8, 0x05u8] + le32(ctx.out) + u32_le_bytes(1) + seq![0xC7u8, 0x05u8] + le32(
        (ctx.out + 4) as u64,
    ) + u32_le_bytes(0)
}

/// Where the instructions end.
pub open spec fn body_end(cg: JITCodegen, ctx: GenContext, program: Seq<Instruction>) -> int {
    start_of(cg, ctx, program, program.len())
}

/// Where the error stub lies (right after the closing jump, if any).
pub open spec fn stub_at(cg: JITCodegen, ctx: GenContext, program: Seq<Instruction>) -> int {
    body_end(cg, ctx, program) + if closing_jump(program) {
        5int
    } else {
        0int
    }
}

/// Where the epilogue lies.
pub open spec fn epilogue_at(cg: JITCodegen, ctx: GenContext, program: Seq<Instruction>) -> int {
    stub_at(cg, ctx, program) + if has_ret(program) {
        20int
    } else {
        0int
    }
}

/// The `nop`s that align the address table to 4 bytes.
pub open spec fn padding(cg: JITCodegen, ctx: GenContext, program: Seq<Instruction>) -> nat {
    if needs_table(program) {
        ((4 - (epilogue_at(cg, ctx, program) + 7) % 4) % 4) as nat
    } else {
        0
    }
}

/// Where the address table lies.
pub open spec fn table_at(cg: JITCodegen, ctx: GenContext, program: Seq<Instruction>) -> int {
    epilogue_at(cg, ctx, program) + 7 + padding(cg, ctx, program)
}

/// The targets of the program's jumps, once every instruction has its
/// place.
pub open spec fn resolved(cg: JITCodegen, ctx: GenContext, program: Seq<Instruction>) -> Targets {
    Targets {
        offsets: Seq::new(program.len(), |k: int| start_of(cg, ctx, program, k as nat)),
        epilogue: epilogue_at(cg, ctx, program),
        error_stub: stub_at(cg, ctx, program),
        table_base: if needs_table(program) {
            (ctx.code_base + table_at(cg, ctx, program)) as u64
        } else {
            0
        },
        table_len: if needs_table(program) {
            program.len() as u64
        } else {
            0
        },
    }
}

/// The first `k` instructions, lowered in place with the resolved targets.
pub open spec fn body(cg: JITCodegen, ctx: GenContext, program: Seq<Instruction>, k: nat) -> Seq<u8>
    decreases k,
{
    if k == 0 {
        Seq::empty()
    } else {
        body(cg, ctx, program, (k - 1) as nat) + code_of(
            lower(
                cg,
                ctx,
                program[k - 1],
                k - 1,
                start_of(cg, ctx, program, (k - 1) as nat),
                resolved(cg, ctx, program),
            ),
        )
    }
}

/// The first `k` entries of the address table: the 32-bit absolute
/// address of each instruction.
pub open spec fn table(cg: JITCodegen, ctx: GenContext, program: Seq<Instruction>, k: nat) -> Seq<u8>
    decreases k,
{
    if k == 0 {
        Seq::empty()
    } else {
        table(cg, ctx, program, (k - 1) as nat) + le32(
            (ctx.code_base + start_of(cg, ctx, program, (k - 1) as nat)) as u64,
        )
    }
}

/// The machine code of a program: the prologue, its instructions, the
/// closing jump to the epilogue, the error stub, the epilogue, then the
/// aligned address table, each where the program needs it.
pub open spec fn generated(cg: JITCodegen, ctx: GenContext, program: Seq<Instruction>) -> Seq<u8> {
    let n = program.len();
    prologue() + body(cg, ctx, program, n) + (if closing_jump(program) {
        seq![0xE9u8] + rel32(body_end(cg, ctx, program) + 1, epilogue_at(cg, ctx, program))
    } else {
        Seq::empty()
    }) + (if has_ret(program) {
        error_stub(ctx)
    } else {
        Seq::empty()
    }) + epilogue() + Seq::new(padding(cg, ctx, program), |k: int| 0x90u8) + (if needs_table(
        program,
    ) {
        table(cg, ctx, program, n)
    } else {
        Seq::empty()
    })
}

/// Whether the address table, where the program has one, lies below
/// 4 GiB (its entries, the addresses of the instructions, then do too).
pub open spec fn table_addressable(cg: JITCodegen, ctx: GenContext, program: Seq<Instruction>) -> bool {
    needs_table(program) ==> ctx.code_base + table_at(cg, ctx, program) < four_gib()
}

/// Where the generated code ends: after the address table, or after the
/// epilogue when there is none.
pub open spec fn code_end(cg: JITCodegen, ctx: GenContext, program: Seq<Instruction>) -> int {
    if needs_table(program) {
        table_at(cg, ctx, program) + 4 * program.len()
    } else {
        epilogue_at(cg, ctx, program) + 7
    }
}

/// Whether the code that generating computes stays within [`REACH`], so
/// that every `rel32` displacement fits: each instruction up to the first
/// that cannot be lowered starts within it, and when all can be lowered,
/// the whole code ends within it.
pub open spec fn within_reach(cg: JITCodegen, ctx: GenContext, program: Seq<Instruction>) -> bool {
    &&& forall|k: nat|
        k <= program.len() && #[trigger] first_failure(cg, ctx, program, k) is None ==> start_of(
            cg,
            ctx,
            program,
            k,
        ) <= REACH
    &&& first_failure(cg, ctx, program, program.len()) is None ==> code_end(cg, ctx, program) <= REACH
}

// ====== The shape of a lowering ======

/// The lengths of the pieces that instructions are made of.
proof fn lemma_piece_lengths(cg: JITCodegen, ctx: GenContext, k: OperandKind, t: Targets, start: int)
    ensures
        eax_from(cg, k).len() == 5,
        first_pair(cg, k).len() == if k is Register {
            11nat
        } else {
            10nat
        },
        second_pair(cg, k).len() == if k is Register {
            12nat
        } else {
            10nat
        },
        ecx_from(cg, k).len() == if k is Register {
            6nat
        } else {
            5nat
        },
        forall|v: u32| #[trigger] u32_le_bytes(v).len() == 4,
        forall|p: int, q: int| #[trigger] rel32(p, q).len() == 4,
        forall|r: Register| #[trigger] pair_to(cg, r).len() == 11,
        dynamic_jump(t, start).len() == 23,
        forall|v: u64| #[trigger] call_push(cg, ctx, v).len() == 29,
{
}

/// No instruction whose bytes do not depend on where they lie takes more
/// than 100 bytes.
#[verifier::rlimit(40)]
proof fn lemma_data_len(cg: JITCodegen, ctx: GenContext, i: Instruction)
    ensures
        code_of(lower_data(cg, ctx, i)).len() <= 100,
{
    let a = if i.operand1 is Some { i.operand1.unwrap().kind } else { OperandKind::Immediate(0) };
    let b = if i.operand2 is Some { i.operand2.unwrap().kind } else { OperandKind::Immediate(0) };
    let c = if i.operand3 is Some { i.operand3.unwrap().kind } else { OperandKind::Immediate(0) };
    lemma_piece_lengths(cg, ctx, a, blank(), 0);
    lemma_piece_lengths(cg, ctx, b, blank(), 0);
    lemma_piece_lengths(cg, ctx, c, blank(), 0);
    let op = i.opcode;
    match op {
        OperationCode::IADD | OperationCode::ISUB | OperationCode::AND | OperationCode::OR
        | OperationCode::XOR => {
            assert(pair_op(op).len() == 4);
        },
        OperationCode::IMUL => {
            assert(imul_body().len() == 55);
        },
        OperationCode::FREM => {
            assert(frem_body().len() == 49);
        },
        OperationCode::LSL | OperationCode::LSR | OperationCode::SAR => {
            assert(shift_body(op).len() <= 32);
        },
        OperationCode::IEQ | OperationCode::INE | OperationCode::SLT | OperationCode::SLE
        | OperationCode::SGT | OperationCode::SGE | OperationCode::ULT | OperationCode::ULE
        | OperationCode::UGT | OperationCode::UGE => {
            assert(compare_body(op).len() <= 39);
        },
        OperationCode::FADD | OperationCode::FSUB | OperationCode::FMUL | OperationCode::FDIV => {
            assert(float_op(op).len() == 4);
            assert(float_result().len() == 15);
        },
        OperationCode::FEQ | OperationCode::FNE | OperationCode::FLT | OperationCode::FLE
        | OperationCode::FGT | OperationCode::FGE => {
            assert(float_condition(op).len() <= 8);
        },
        OperationCode::LOAD8 | OperationCode::LOAD16 | OperationCode::LOAD32 | OperationCode::LOAD64 => {
            assert(load_access(op).len() <= 5);
            assert(memory_pointer(ctx).len() == 9);
        },
        OperationCode::STORE8 | OperationCode::STORE16 | OperationCode::STORE32 | OperationCode::STORE64 => {
            assert(store_access(op).len() <= 5);
            assert(memory_pointer(ctx).len() == 9);
        },
        _ => {},
    }
}

/// Whether an instruction can be lowered, and the length of its bytes, do
/// not depend on its index, where it lies or its targets; no instruction
/// takes more than 100 bytes.
proof fn lemma_lower_shape(
    cg: JITCodegen,
    ctx: GenContext,
    i: Instruction,
    index: int,
    start: int,
    t: Targets,
)
    ensures
        same_shape(lower(cg, ctx, i, index, start, t), lower(cg, ctx, i, 0, 0, blank()), piece_len(cg, ctx, i)),
        piece_len(cg, ctx, i) <= 100,
{
    reveal(lower);
    match i.opcode {
        OperationCode::JMP => lemma_jmp_shape(cg, ctx, i, start, t),
        OperationCode::JZ | OperationCode::JNZ => lemma_branch_shape(cg, ctx, i, start, t),
        OperationCode::CALL => lemma_call_shape(cg, ctx, i, index, start, t),
        OperationCode::RET => lemma_ret_shape(cg, ctx, i, start, t),
        OperationCode::VMCALL => lemma_vmcall_shape(cg, ctx, i, start, t),
        OperationCode::SDIV | OperationCode::UDIV | OperationCode::SREM
        | OperationCode::UREM => lemma_division_shape(cg, ctx, i, start, t),
        _ => lemma_data_len(cg, ctx, i),
    }
}

proof fn lemma_jmp_shape(cg: JITCodegen, ctx: GenContext, i: Instruction, start: int, t: Targets)
    requires
        i.opcode == OperationCode::JMP,
    ensures
        same_shape(lower_jmp(cg, i, start, t), lower_jmp(cg, i, 0, blank()), code_of(lower_jmp(cg, i, 0, blank())).len()),
        code_of(lower_jmp(cg, i, 0, blank())).len() <= 100,
{
    if i.count() == 1 && i.operand1 is Some {
        let a = i.operand1.unwrap().kind;
        lemma_piece_lengths(cg, ctx, a, t, start + 5);
        lemma_piece_lengths(cg, ctx, a, blank(), 5);
    }
}

proof fn lemma_branch_shape(cg: JITCodegen, ctx: GenContext, i: Instruction, start: int, t: Targets)
    requires
        i.opcode == OperationCode::JZ || i.opcode == OperationCode::JNZ,
    ensures
        same_shape(lower_branch(cg, i, start, t), lower_branch(cg, i, 0, blank()), code_of(lower_branch(cg, i, 0, blank())).len()),
        code_of(lower_branch(cg, i, 0, blank())).len() <= 100,
{
    if i.count() == 2 && i.operand1 is Some && i.operand2 is Some {
        let c = i.operand1.unwrap().kind;
        let a = i.operand2.unwrap().kind;
        if fits(a) && fits(c) {
            lemma_ahead(23);
            let m = second_pair(cg, c).len();
            lemma_piece_lengths(cg, ctx, c, t, start + 5 + m + 8);
            lemma_piece_lengths(cg, ctx, c, blank(), 5int + m + 8);
            match a {
                OperandKind::Immediate(v) => {
                    let n = first_pair(cg, c).len();
                    assert(code_of(lower_branch(cg, i, start, t)).len() == n + 8);
                    assert(code_of(lower_branch(cg, i, 0, blank())).len() == n + 8);
                },
                OperandKind::Register(_) => {
                    assert(code_of(lower_branch(cg, i, start, t)).len() == m + 36);
                    assert(code_of(lower_branch(cg, i, 0, blank())).len() == m + 36);
                },
            }
        }
    }
}

proof fn lemma_call_shape(cg: JITCodegen, ctx: GenContext, i: Instruction, index: int, start: int, t: Targets)
    requires
        i.opcode == OperationCode::CALL,
    ensures
        same_shape(lower_call(cg, ctx, i, index, start, t), lower_call(cg, ctx, i, 0, 0, blank()), code_of(lower_call(cg, ctx, i, 0, 0, blank())).len()),
        code_of(lower_call(cg, ctx, i, 0, 0, blank())).len() <= 100,
{
    if i.count() == 1 && i.operand1 is Some {
        let a = i.operand1.unwrap().kind;
        lemma_piece_lengths(cg, ctx, a, t, start + 46);
        lemma_piece_lengths(cg, ctx, a, blank(), 46);
    }
}

proof fn lemma_ret_shape(cg: JITCodegen, ctx: GenContext, i: Instruction, start: int, t: Targets)
    requires
        i.opcode == OperationCode::RET,
    ensures
        same_shape(lower_ret(cg, ctx, i, start, t), lower_ret(cg, ctx, i, 0, blank()), code_of(lower_ret(cg, ctx, i, 0, blank())).len()),
        code_of(lower_ret(cg, ctx, i, 0, blank())).len() <= 100,
{
    lemma_piece_lengths(cg, ctx, OperandKind::Immediate(0), t, start + 43);
    lemma_piece_lengths(cg, ctx, OperandKind::Immediate(0), blank(), 43);
}

proof fn lemma_vmcall_shape(cg: JITCodegen, ctx: GenContext, i: Instruction, start: int, t: Targets)
    requires
        i.opcode == OperationCode::VMCALL,
    ensures
        same_shape(lower_vmcall(cg, ctx, i, start, t), lower_vmcall(cg, ctx, i, 0, blank()), code_of(lower_vmcall(cg, ctx, i, 0, blank())).len()),
        code_of(lower_vmcall(cg, ctx, i, 0, blank())).len() <= 100,
{
    if i.count() == 3 {
        let a = i.operand1.unwrap().kind;
        let b = i.operand2.unwrap().kind;
        let c = i.operand3.unwrap().kind;
        lemma_piece_lengths(cg, ctx, a, t, start);
        lemma_piece_lengths(cg, ctx, b, t, start);
        lemma_piece_lengths(cg, ctx, c, t, start);
        assert(vmcall_call(cg, ctx, a, b, c).len() <= 89);
    }
}

proof fn lemma_division_shape(cg: JITCodegen, ctx: GenContext, i: Instruction, start: int, t: Targets)
    requires
        is_division(i.opcode),
    ensures
        same_shape(lower_division(cg, ctx, i, start, t), lower_division(cg, ctx, i, 0, blank()), code_of(lower_division(cg, ctx, i, 0, blank())).len()),
        code_of(lower_division(cg, ctx, i, 0, blank())).len() <= 100,
{
    if i.count() == 3 {
        let b = i.operand2.unwrap().kind;
        let c = i.operand3.unwrap().kind;
        lemma_piece_lengths(cg, ctx, b, t, start);
        lemma_piece_lengths(cg, ctx, c, t, start);
        assert(division_call(cg, ctx, b, c, division_helper(ctx, i.opcode)).len() <= 82);
    }
}

/// Whether an instruction lowers, and the error or panic it comes to when
/// it does not, are the same for x86 as for x64.
proof fn lemma_same_outcome(cg: JITCodegen, ctx: GenContext, i: Instruction, index: int)
    ensures
        (lower(cg, ctx, i, index, 0, blank()) is Code) == (crate::vm::jit::codegen::x64::lower(
            cg,
            ctx,
            i,
            index,
            0,
            blank(),
        ) is Code),
        !(lower(cg, ctx, i, index, 0, blank()) is Code) ==> lower(cg, ctx, i, index, 0, blank())
            == crate::vm::jit::codegen::x64::lower(cg, ctx, i, index, 0, blank()),
{
    reveal(lower);
    reveal(crate::vm::jit::codegen::x64::lower);
}

/// The first failure among the first `k` instructions is the same for x86
/// as for x64.
proof fn lemma_same_failure(cg: JITCodegen, ctx: GenContext, program: Seq<Instruction>, k: nat)
    ensures
        first_failure(cg, ctx, program, k) == crate::vm::jit::codegen::x64::first_failure(
            cg,
            ctx,
            program,
            k,
        ),
    decreases k,
{
    if k > 0 {
        lemma_same_failure(cg, ctx, program, (k - 1) as nat);
        lemma_same_outcome(cg, ctx, program[k - 1], k - 1);
    }
}

// ====== Emitting ======

/// The 32-bit form of a host address.
fn addr32(address: u64) -> (r: u32)
    requires
        address < four_gib(),
    ensures
        r == address as u32,
{
    address as u32
}

/// Appends the four little-endian bytes of `v` to `code`.
fn emit_u32(code: &mut Vec<u8>, v: u32)
    ensures
        final(code)@ == old(code)@ + u32_le_bytes(v),
{
    emit(code, &crate::bytes::u32_to_le_bytes(v));
}

/// The 32-bit address of the cell of register `register`.
fn register_addr(cg: &JITCodegen, register: usize) -> (r: u32)
    requires
        register < 255,
        cg.registers_base() + 8 * 255 <= four_gib(),
    ensures
        r == cell(*cg, Register(register as u8)),
{
    addr32(cg.register(register))
}

/// `mov eax, <low half>`, `mov edx, <high half>` of an operand.
fn load_eax_edx(cg: &JITCodegen, code: &mut Vec<u8>, operand: OperandKind)
    requires
        fits(operand),
        cg.registers_base() + 8 * 255 <= four_gib(),
    ensures
        final(code)@ == old(code)@ + first_pair(*cg, operand),
{
    match operand {
        OperandKind::Register(register) => {
            // `mov eax, [cell]`
            emit(code, &[0xA1]);
            emit_u32(code, register_addr(cg, register.0 as usize));
            // `mov edx, [cell + 4]`
            emit(code, &[0x8B, 0x15]);
            emit_u32(code, register_addr(cg, register.0 as usize).wrapping_add(4));
        },
        OperandKind::Immediate(value) => {
            // `mov eax, <low>`, `mov edx, <high>`
            emit(code, &[0xB8]);
            emit_u32(code, (value % 0x1_0000_0000) as u32);
            emit(code, &[0xBA]);
            emit_u32(code, (value / 0x1_0000_0000) as u32);
        },
    }
    assert(code@ =~= old(code)@ + first_pair(*cg, operand));
}

/// `mov ecx, <low half>` of an operand.
fn load_ecx(cg: &JITCodegen, code: &mut Vec<u8>, operand: OperandKind)
    requires
        fits(operand),
        cg.registers_base() + 8 * 255 <= four_gib(),
    ensures
        final(code)@ == old(code)@ + ecx_from(*cg, operand),
{
    match operand {
        OperandKind::Register(register) => {
            // `mov ecx, [cell]`
            emit(code, &[0x8B, 0x0D]);
            emit_u32(code, register_addr(cg, register.0 as usize));
        },
        OperandKind::Immediate(value) => {
            // `mov ecx, <low>`
            emit(code, &[0xB9]);
            emit_u32(code, (value % 0x1_0000_0000) as u32);
        },
    }
}

/// `mov eax, <low half>` of an operand.
fn load_eax(cg: &JITCodegen, code: &mut Vec<u8>, operand: OperandKind)
    requires
        fits(operand),
        cg.registers_base() + 8 * 255 <= four_gib(),
    ensures
        final(code)@ == old(code)@ + eax_from(*cg, operand),
{
    match operand {
        OperandKind::Register(register) => {
            // `mov eax, [cell]`
            emit(code, &[0xA1]);
            emit_u32(code, register_addr(cg, register.0 as usize));
        },
        OperandKind::Immediate(value) => {
            // `mov eax, <low>`
            emit(code, &[0xB8]);
            emit_u32(code, (value % 0x1_0000_0000) as u32);
        },
    }
}

/// `mov ecx, <low half>`, `mov ebx, <high half>` of an operand.
fn load_ecx_ebx(cg: &JITCodegen, code: &mut Vec<u8>, operand: OperandKind)
    requires
        fits(operand),
        cg.registers_base() + 8 * 255 <= four_gib(),
    ensures
        final(code)@ == old(code)@ + second_pair(*cg, operand),
{
    load_ecx(cg, code, operand);
    match operand {
        OperandKind::Register(register) => {
            // `mov ebx, [cell + 4]`
            emit(code, &[0x8B, 0x1D]);
            emit_u32(code, register_addr(cg, register.0 as usize).wrapping_add(4));
        },
        OperandKind::Immediate(value) => {
            // `mov ebx, <high>`
            emit(code, &[0xBB]);
            emit_u32(code, (value / 0x1_0000_0000) as u32);
        },
    }
    assert(code@ =~= old(code)@ + second_pair(*cg, operand));
}

/// `EDX:EAX` into the cell of the destination register.
fn store_eax_edx(cg: &JITCodegen, code: &mut Vec<u8>, destination: Register)
    requires
        destination.is_valid(),
        cg.registers_base() + 8 * 255 <= four_gib(),
    ensures
        final(code)@ == old(code)@ + pair_to(*cg, destination),
{
    // `mov [cell], eax`
    emit(code, &[0xA3]);
    emit_u32(code, register_addr(cg, destination.0 as usize));
    // `mov [cell + 4], edx`
    emit(code, &[0x89, 0x15]);
    emit_u32(code, register_addr(cg, destination.0 as usize).wrapping_add(4));
    assert(code@ =~= old(code)@ + pair_to(*cg, destination));
}

/// The two integer sources into `EDX:EAX` and `EBX:ECX`.
fn load_integer_operands(cg: &JITCodegen, code: &mut Vec<u8>, lhs: OperandKind, rhs: OperandKind)
    requires
        fits(lhs),
        fits(rhs),
        cg.registers_base() + 8 * 255 <= four_gib(),
    ensures
        final(code)@ == old(code)@ + integer_operands(*cg, lhs, rhs),
{
    load_eax_edx(cg, code, lhs);
    load_ecx_ebx(cg, code, rhs);
}



/// `mov ecx, <low half>` of the count after the value into `EDX:EAX`.
fn load_shift_operands(cg: &JITCodegen, code: &mut Vec<u8>, lhs: OperandKind, rhs: OperandKind)
    requires
        fits(lhs),
        fits(rhs),
        cg.registers_base() + 8 * 255 <= four_gib(),
    ensures
        final(code)@ == old(code)@ + first_pair(*cg, lhs) + ecx_from(*cg, rhs),
{
    load_eax_edx(cg, code, lhs);
    load_ecx(cg, code, rhs);
}

/// The two floating-point sources into `XMM0` and `XMM1`, through a stack
/// block.
fn load_float_operands(cg: &JITCodegen, code: &mut Vec<u8>, lhs: OperandKind, rhs: OperandKind)
    requires
        fits(lhs),
        fits(rhs),
        cg.registers_base() + 8 * 255 <= four_gib(),
    ensures
        final(code)@ == old(code)@ + float_operands(*cg, lhs, rhs),
{
    load_integer_operands(cg, code, lhs, rhs);
    // `sub esp, 16`
    emit(code, &[0x83, 0xEC, 0x10]);
    // `mov [esp], eax`, `mov [esp + 4], edx`, `movsd xmm0, [esp]`
    emit(code, &[0x89, 0x04, 0x24]);
    emit(code, &[0x89, 0x54, 0x24, 0x04]);
    emit(code, &[0xF2, 0x0F, 0x10, 0x04, 0x24]);
    // `mov [esp + 8], ecx`, `mov [esp + 12], ebx`, `movsd xmm1, [esp + 8]`
    emit(code, &[0x89, 0x4C, 0x24, 0x08]);
    emit(code, &[0x89, 0x5C, 0x24, 0x0C]);
    emit(code, &[0xF2, 0x0F, 0x10, 0x4C, 0x24, 0x08]);
    assert(code@ =~= old(code)@ + float_operands(*cg, lhs, rhs));
}

/// `XMM0` into the destination register, through the stack block, which is
/// released.
fn store_float_result(cg: &JITCodegen, code: &mut Vec<u8>, destination: Register)
    requires
        destination.is_valid(),
        cg.registers_base() + 8 * 255 <= four_gib(),
    ensures
        final(code)@ == old(code)@ + float_result() + pair_to(*cg, destination),
{
    // `movsd [esp], xmm0`, `mov eax, [esp]`, `mov edx, [esp + 4]`, `add esp, 16`
    emit(code, &[0xF2, 0x0F, 0x11, 0x04, 0x24]);
    emit(code, &[0x8B, 0x04, 0x24]);
    emit(code, &[0x8B, 0x54, 0x24, 0x04]);
    emit(code, &[0x83, 0xC4, 0x10]);
    store_eax_edx(cg, code, destination);
    assert(code@ =~= old(code)@ + float_result() + pair_to(*cg, destination));
}

/// `NOP`.
fn nop() -> (r: Result<Vec<u8>, VMError>)
    ensures
        produced(r, Lowering::Code(seq![0x90u8])),
{
    let mut code: Vec<u8> = Vec::new();
    code.push(0x90);
    Ok(code)
}

/// `MOVE <register>, <source>`: the source into `EDX:EAX`, then into the
/// destination.
fn mov(cg: &JITCodegen, instruction: &Instruction) -> (r: Result<Vec<u8>, VMError>)
    requires
        !(lower_move(*cg, *instruction) is Panic),
        cg.registers_base() + 8 * 255 <= four_gib(),
    ensures
        produced(r, lower_move(*cg, *instruction)),
{
    let mut code: Vec<u8> = Vec::new();
    match (instruction.operand1, instruction.operand2, instruction.operand3) {
        (Some(op1), Some(op2), None) => match op1.kind {
            OperandKind::Register(destination) => {
                check_register(op1.kind)?;
                check_register(op2.kind)?;
                load_eax_edx(cg, &mut code, op2.kind);
                store_eax_edx(cg, &mut code, destination);
                Ok(code)
            },
            got => Err(
                VMError::new(
                    VMErrorKind::IncorrectTypeOfOperand {
                        expected: OperandKind::Register(Register(0)),
                        got,
                    },
                ),
            ),
        },
        _ => {
            let got = instruction.operand_count() as u8;
            Err(VMError::new(VMErrorKind::IncorrectNumberOfOperands { expected: 2, got }))
        },
    }
}

/// An integer operation: the sources into `EDX:EAX` and `EBX:ECX`, then
/// `operation`, then `EDX:EAX` into the destination.
fn binary_integer(cg: &JITCodegen, instruction: &Instruction, operation: &[u8]) -> (r: Result<Vec<u8>, VMError>)
    requires
        !(lower_binary(*cg, *instruction, operation@) is Panic),
        cg.registers_base() + 8 * 255 <= four_gib(),
    ensures
        produced(r, lower_binary(*cg, *instruction, operation@)),
{
    let (destination, lhs, rhs) = cg.destination_and_two(instruction)?;
    let mut code: Vec<u8> = Vec::new();
    load_integer_operands(cg, &mut code, lhs, rhs);
    emit(&mut code, operation);
    store_eax_edx(cg, &mut code, destination);
    Ok(code)
}

fn iadd(cg: &JITCodegen, instruction: &Instruction) -> (r: Result<Vec<u8>, VMError>)
    requires
        !(lower_binary(*cg, *instruction, pair_op(OperationCode::IADD)) is Panic),
        cg.registers_base() + 8 * 255 <= four_gib(),
    ensures
        produced(r, lower_binary(*cg, *instruction, pair_op(OperationCode::IADD))),
{
    // `add eax, ecx`, then `adc edx, ebx`: the high halves plus the carry.
    binary_integer(cg, instruction, &[0x01, 0xC8, 0x11, 0xDA])
}

fn isub(cg: &JITCodegen, instruction: &Instruction) -> (r: Result<Vec<u8>, VMError>)
    requires
        !(lower_binary(*cg, *instruction, pair_op(OperationCode::ISUB)) is Panic),
        cg.registers_base() + 8 * 255 <= four_gib(),
    ensures
        produced(r, lower_binary(*cg, *instruction, pair_op(OperationCode::ISUB))),
{
    // `sub eax, ecx`, then `sbb edx, ebx` (`19 /r`: the ModRM `rm` field is
    // the destination): the high halves minus the borrow.
    binary_integer(cg, instruction, &[0x29, 0xC8, 0x19, 0xDA])
}

fn and_(cg: &JITCodegen, instruction: &Instruction) -> (r: Result<Vec<u8>, VMError>)
    requires
        !(lower_binary(*cg, *instruction, pair_op(OperationCode::AND)) is Panic),
        cg.registers_base() + 8 * 255 <= four_gib(),
    ensures
        produced(r, lower_binary(*cg, *instruction, pair_op(OperationCode::AND))),
{
    // `and eax, ecx`, `and edx, ebx`
    binary_integer(cg, instruction, &[0x21, 0xC8, 0x21, 0xDA])
}

fn or_(cg: &JITCodegen, instruction: &Instruction) -> (r: Result<Vec<u8>, VMError>)
    requires
        !(lower_binary(*cg, *instruction, pair_op(OperationCode::OR)) is Panic),
        cg.registers_base() + 8 * 255 <= four_gib(),
    ensures
        produced(r, lower_binary(*cg, *instruction, pair_op(OperationCode::OR))),
{
    // `or eax, ecx`, `or edx, ebx`
    binary_integer(cg, instruction, &[0x09, 0xC8, 0x09, 0xDA])
}

fn xor_(cg: &JITCodegen, instruction: &Instruction) -> (r: Result<Vec<u8>, VMError>)
    requires
        !(lower_binary(*cg, *instruction, pair_op(OperationCode::XOR)) is Panic),
        cg.registers_base() + 8 * 255 <= four_gib(),
    ensures
        produced(r, lower_binary(*cg, *instruction, pair_op(OperationCode::XOR))),
{
    // `xor eax, ecx`, `xor edx, ebx`
    binary_integer(cg, instruction, &[0x31, 0xC8, 0x31, 0xDA])
}

/// `IMUL`: only the low 64 bits of the product are kept, `a_lo * b_lo +
/// 2^32 * (a_lo * b_hi + a_hi * b_lo)`; the operands are spilled to the
/// stack because `mul` destroys `EDX:EAX`.
fn imul(cg: &JITCodegen, instruction: &Instruction) -> (r: Result<Vec<u8>, VMError>)
    requires
        !(lower_binary(*cg, *instruction, imul_body()) is Panic),
        cg.registers_base() + 8 * 255 <= four_gib(),
    ensures
        produced(r, lower_binary(*cg, *instruction, imul_body())),
{
    let mut body: Vec<u8> = Vec::new();
    // `sub esp, 16`; `mov [esp], eax` (a_lo), `mov [esp + 4], edx` (a_hi),
    // `mov [esp + 8], ecx` (b_lo), `mov [esp + 12], ebx` (b_hi)
    emit(&mut body, &[0x83, 0xEC, 0x10]);
    emit(&mut body, &[0x89, 0x04, 0x24]);
    emit(&mut body, &[0x89, 0x54, 0x24, 0x04]);
    emit(&mut body, &[0x89, 0x4C, 0x24, 0x08]);
    emit(&mut body, &[0x89, 0x5C, 0x24, 0x0C]);
    // `mov eax, [esp]`; `mul dword [esp + 8]`: `EDX:EAX = a_lo * b_lo`
    emit(&mut body, &[0x8B, 0x04, 0x24]);
    emit(&mut body, &[0xF7, 0x64, 0x24, 0x08]);
    // `mov ecx, eax` (result low); `mov ebx, edx` (partial high)
    emit(&mut body, &[0x89, 0xC1]);
    emit(&mut body, &[0x89, 0xD3]);
    // `mov eax, [esp]`; `mul dword [esp + 12]`; `add ebx, eax`
    emit(&mut body, &[0x8B, 0x04, 0x24]);
    emit(&mut body, &[0xF7, 0x64, 0x24, 0x0C]);
    emit(&mut body, &[0x01, 0xC3]);
    // `mov eax, [esp + 4]`; `mul dword [esp + 8]`; `add ebx, eax`
    emit(&mut body, &[0x8B, 0x44, 0x24, 0x04]);
    emit(&mut body, &[0xF7, 0x64, 0x24, 0x08]);
    emit(&mut body, &[0x01, 0xC3]);
    // `mov eax, ecx`; `mov edx, ebx`; `add esp, 16`
    emit(&mut body, &[0x89, 0xC8]);
    emit(&mut body, &[0x89, 0xDA]);
    emit(&mut body, &[0x83, 0xC4, 0x10]);
    assert(body@ =~= imul_body());
    binary_integer(cg, instruction, body.as_slice())
}

/// A short displacement is its byte followed by three zero bytes.
proof fn lemma_ahead(d: u32)
    requires
        d < 256,
    ensures
        ahead(d) == seq![d as u8, 0u8, 0u8, 0u8],
{
    assert(ahead(d) =~= seq![d as u8, 0u8, 0u8, 0u8]);
}

/// The shift of `EDX:EAX` by `ECX` (see [`shift_body`]).
fn shift_sequence(code: &mut Vec<u8>, op: OperationCode)
    ensures
        final(code)@ == old(code)@ + shift_body(op),
{
    proof {
        lemma_ahead(14);
        lemma_ahead(15);
        lemma_ahead(5);
    }
    // `and ecx, 63`, `cmp ecx, 32`
    emit(code, &[0x83, 0xE1, 0x3F, 0x83, 0xF9, 0x20]);
    match op {
        OperationCode::LSL => {
            // `jb <lo32>`; `count >= 32`: `sub ecx, 32`, `mov edx, eax`,
            // `xor eax, eax`, `shl edx, cl`, `jmp <done>`
            emit(code, &[0x0F, 0x82, 14, 0, 0, 0]);
            emit(code, &[0x83, 0xE9, 0x20, 0x89, 0xC2, 0x31, 0xC0, 0xD3, 0xE2]);
            emit(code, &[0xE9, 5, 0, 0, 0]);
            // `<lo32>: shld edx, eax, cl`, `shl eax, cl`
            emit(code, &[0x0F, 0xA5, 0xC2, 0xD3, 0xE0]);
        },
        OperationCode::LSR => {
            // `jb <lo32>`; `count >= 32`: `sub ecx, 32`, `mov eax, edx`,
            // `xor edx, edx`, `shr eax, cl`, `jmp <done>`
            emit(code, &[0x0F, 0x82, 14, 0, 0, 0]);
            emit(code, &[0x83, 0xE9, 0x20, 0x89, 0xD0, 0x31, 0xD2, 0xD3, 0xE8]);
            emit(code, &[0xE9, 5, 0, 0, 0]);
            // `<lo32>: shrd eax, edx, cl`, `shr edx, cl`
            emit(code, &[0x0F, 0xAD, 0xD0, 0xD3, 0xEA]);
        },
        _ => {
            // `jb <lo32>`; `count >= 32`: `sub ecx, 32`, `mov eax, edx`,
            // `sar eax, cl`, `sar edx, 31` (the sign spread), `jmp <done>`
            emit(code, &[0x0F, 0x82, 15, 0, 0, 0]);
            emit(code, &[0x83, 0xE9, 0x20, 0x89, 0xD0, 0xD3, 0xF8, 0xC1, 0xFA, 0x1F]);
            emit(code, &[0xE9, 5, 0, 0, 0]);
            // `<lo32>: shrd eax, edx, cl`, `sar edx, cl`
            emit(code, &[0x0F, 0xAD, 0xD0, 0xD3, 0xFA]);
        },
    }
    assert(code@ =~= old(code)@ + shift_body(op));
}

/// A shift: the count masked to 6 bits (as `wrapping_shl` and friends do),
/// then one path for counts of 32 or more and one for smaller counts.
fn shift(cg: &JITCodegen, instruction: &Instruction) -> (r: Result<Vec<u8>, VMError>)
    requires
        !(lower_shift(*cg, *instruction) is Panic),
        instruction.opcode == OperationCode::LSL || instruction.opcode == OperationCode::LSR
            || instruction.opcode == OperationCode::SAR,
        cg.registers_base() + 8 * 255 <= four_gib(),
    ensures
        produced(r, lower_shift(*cg, *instruction)),
{
    let (destination, lhs, rhs) = cg.destination_and_two(instruction)?;
    let mut code: Vec<u8> = Vec::new();
    load_shift_operands(cg, &mut code, lhs, rhs);
    shift_sequence(&mut code, instruction.opcode);
    // `<done>:`
    store_eax_edx(cg, &mut code, destination);
    Ok(code)
}

fn lsl(cg: &JITCodegen, instruction: &Instruction) -> (r: Result<Vec<u8>, VMError>)
    requires
        !(lower_shift(*cg, *instruction) is Panic),
        instruction.opcode == OperationCode::LSL,
        cg.registers_base() + 8 * 255 <= four_gib(),
    ensures
        produced(r, lower_shift(*cg, *instruction)),
{
    shift(cg, instruction)
}

fn lsr(cg: &JITCodegen, instruction: &Instruction) -> (r: Result<Vec<u8>, VMError>)
    requires
        !(lower_shift(*cg, *instruction) is Panic),
        instruction.opcode == OperationCode::LSR,
        cg.registers_base() + 8 * 255 <= four_gib(),
    ensures
        produced(r, lower_shift(*cg, *instruction)),
{
    shift(cg, instruction)
}

fn sar(cg: &JITCodegen, instruction: &Instruction) -> (r: Result<Vec<u8>, VMError>)
    requires
        !(lower_shift(*cg, *instruction) is Panic),
        instruction.opcode == OperationCode::SAR,
        cg.registers_base() + 8 * 255 <= four_gib(),
    ensures
        produced(r, lower_shift(*cg, *instruction)),
{
    shift(cg, instruction)
}

/// The comparison of `EDX:EAX` with `EBX:ECX` into `EAX` (see
/// [`compare_body`]): `IEQ` and `INE` on both halves, the ordered ones on
/// the high halves first.
fn compare_sequence(code: &mut Vec<u8>, op: OperationCode)
    ensures
        final(code)@ == old(code)@ + compare_body(op),
{
    proof {
        lemma_ahead(18);
        lemma_ahead(10);
        lemma_ahead(2);
        lemma_ahead(15);
        lemma_ahead(7);
        lemma_ahead(5);
        lemma_ahead(19);
        lemma_ahead(23);
    }
    // `cmp edx, ebx`
    emit(code, &[0x39, 0xDA]);
    match op {
        OperationCode::IEQ => {
            // `jne <false>`, `cmp eax, ecx`, `jne <false>`, `mov eax, 1`,
            // `jmp <store>`, `<false>: xor eax, eax`
            emit(code, &[0x0F, 0x85, 18, 0, 0, 0, 0x39, 0xC8, 0x0F, 0x85, 10, 0, 0, 0]);
            emit(code, &[0xB8, 0x01, 0x00, 0x00, 0x00, 0xE9, 2, 0, 0, 0, 0x31, 0xC0]);
        },
        OperationCode::INE => {
            // `jne <true>`, `cmp eax, ecx`, `jne <true>`, `xor eax, eax`,
            // `jmp <store>`, `<true>: mov eax, 1`
            emit(code, &[0x0F, 0x85, 15, 0, 0, 0, 0x39, 0xC8, 0x0F, 0x85, 7, 0, 0, 0]);
            emit(code, &[0x31, 0xC0, 0xE9, 5, 0, 0, 0, 0xB8, 0x01, 0x00, 0x00, 0x00]);
        },
        _ => {
            // The high halves decide when they differ: `<below> <true>`,
            // `<above> <false>`; then the low halves: `cmp eax, ecx`,
            // `<lo> <true>`, `jmp <false>`.
            let (below, above, lo): (u8, u8, u8) = match op {
                OperationCode::SLT => (0x8C, 0x8F, 0x82),
                OperationCode::SLE => (0x8C, 0x8F, 0x86),
                OperationCode::SGT => (0x8F, 0x8C, 0x87),
                OperationCode::SGE => (0x8F, 0x8C, 0x83),
                OperationCode::ULT => (0x82, 0x87, 0x82),
                OperationCode::ULE => (0x82, 0x87, 0x86),
                OperationCode::UGT => (0x87, 0x82, 0x87),
                _ => (0x87, 0x82, 0x83),
            };
            emit(code, &[0x0F, below, 19, 0, 0, 0, 0x0F, above, 23, 0, 0, 0]);
            emit(code, &[0x39, 0xC8, 0x0F, lo, 5, 0, 0, 0, 0xE9, 10, 0, 0, 0]);
            // `<true>: mov eax, 1`, `jmp <store>`, `<false>: xor eax, eax`
            emit(code, &[0xB8, 0x01, 0x00, 0x00, 0x00, 0xE9, 2, 0, 0, 0, 0x31, 0xC0]);
        },
    }
    // `<store>:`
    assert(code@ =~= old(code)@ + compare_body(op));
}

/// An integer comparison: `1` or `0` into `EAX`, zero into `EDX`, then
/// into the destination.
fn compare(cg: &JITCodegen, instruction: &Instruction) -> (r: Result<Vec<u8>, VMError>)
    requires
        !(lower_compare(*cg, *instruction) is Panic),
        cg.registers_base() + 8 * 255 <= four_gib(),
    ensures
        produced(r, lower_compare(*cg, *instruction)),
{
    let (destination, lhs, rhs) = cg.destination_and_two(instruction)?;
    let mut code: Vec<u8> = Vec::new();
    load_integer_operands(cg, &mut code, lhs, rhs);
    compare_sequence(&mut code, instruction.opcode);
    // `xor edx, edx`
    emit(&mut code, &[0x31, 0xD2]);
    store_eax_edx(cg, &mut code, destination);
    Ok(code)
}

/// An operation of one source: the source into `EDX:EAX`, then
/// `operation`, then `EDX:EAX` into the destination.
fn unary(cg: &JITCodegen, instruction: &Instruction, operation: &[u8]) -> (r: Result<Vec<u8>, VMError>)
    requires
        !(lower_unary(*cg, *instruction, operation@) is Panic),
        cg.registers_base() + 8 * 255 <= four_gib(),
    ensures
        produced(r, lower_unary(*cg, *instruction, operation@)),
{
    let (destination, source) = cg.destination_and_one(instruction)?;
    let mut code: Vec<u8> = Vec::new();
    load_eax_edx(cg, &mut code, source);
    emit(&mut code, operation);
    store_eax_edx(cg, &mut code, destination);
    Ok(code)
}

/// `INEG`: two's-complement negation through the carry: `neg eax` (CF is
/// set unless the low half was zero), `adc edx, 0`, `neg edx`.
fn ineg(cg: &JITCodegen, instruction: &Instruction) -> (r: Result<Vec<u8>, VMError>)
    requires
        !(lower_unary(*cg, *instruction, seq![0xF7u8, 0xD8u8, 0x83u8, 0xD2u8, 0x00u8, 0xF7u8, 0xDAu8]) is Panic),
        cg.registers_base() + 8 * 255 <= four_gib(),
    ensures
        produced(r, lower_unary(*cg, *instruction, seq![0xF7u8, 0xD8u8, 0x83u8, 0xD2u8, 0x00u8, 0xF7u8, 0xDAu8])),
{
    let operation: [u8; 7] = [0xF7, 0xD8, 0x83, 0xD2, 0x00, 0xF7, 0xDA];
    assert(operation@ =~= seq![0xF7u8, 0xD8u8, 0x83u8, 0xD2u8, 0x00u8, 0xF7u8, 0xDAu8]);
    unary(cg, instruction, &operation)
}

/// `NOT`: `not eax`, `not edx`.
fn not_(cg: &JITCodegen, instruction: &Instruction) -> (r: Result<Vec<u8>, VMError>)
    requires
        !(lower_unary(*cg, *instruction, seq![0xF7u8, 0xD0u8, 0xF7u8, 0xD2u8]) is Panic),
        cg.registers_base() + 8 * 255 <= four_gib(),
    ensures
        produced(r, lower_unary(*cg, *instruction, seq![0xF7u8, 0xD0u8, 0xF7u8, 0xD2u8])),
{
    let operation: [u8; 4] = [0xF7, 0xD0, 0xF7, 0xD2];
    assert(operation@ =~= seq![0xF7u8, 0xD0u8, 0xF7u8, 0xD2u8]);
    unary(cg, instruction, &operation)
}

/// `FNEG`: only the sign bit flips, `xor edx, 80000000h`.
fn fneg(cg: &JITCodegen, instruction: &Instruction) -> (r: Result<Vec<u8>, VMError>)
    requires
        !(lower_unary(*cg, *instruction, seq![0x81u8, 0xF2u8, 0x00u8, 0x00u8, 0x00u8, 0x80u8]) is Panic),
        cg.registers_base() + 8 * 255 <= four_gib(),
    ensures
        produced(r, lower_unary(*cg, *instruction, seq![0x81u8, 0xF2u8, 0x00u8, 0x00u8, 0x00u8, 0x80u8])),
{
    let operation: [u8; 6] = [0x81, 0xF2, 0x00, 0x00, 0x00, 0x80];
    assert(operation@ =~= seq![0x81u8, 0xF2u8, 0x00u8, 0x00u8, 0x00u8, 0x80u8]);
    unary(cg, instruction, &operation)
}

/// A floating-point operation: the sources into `XMM0` and `XMM1`, then
/// `operation`, then `XMM0` into the destination.
fn binary_float(cg: &JITCodegen, instruction: &Instruction, operation: &[u8; 4]) -> (r: Result<Vec<u8>, VMError>)
    requires
        !(lower_float(*cg, *instruction, operation@) is Panic),
        cg.registers_base() + 8 * 255 <= four_gib(),
    ensures
        produced(r, lower_float(*cg, *instruction, operation@)),
{
    let (destination, lhs, rhs) = cg.destination_and_two(instruction)?;
    let mut code: Vec<u8> = Vec::new();
    load_float_operands(cg, &mut code, lhs, rhs);
    emit(&mut code, operation);
    store_float_result(cg, &mut code, destination);
    Ok(code)
}

fn fadd(cg: &JITCodegen, instruction: &Instruction) -> (r: Result<Vec<u8>, VMError>)
    requires
        !(lower_float(*cg, *instruction, float_op(OperationCode::FADD)) is Panic),
        cg.registers_base() + 8 * 255 <= four_gib(),
    ensures
        produced(r, lower_float(*cg, *instruction, float_op(OperationCode::FADD))),
{
    // `addsd xmm0, xmm1`
    binary_float(cg, instruction, &[0xF2, 0x0F, 0x58, 0xC1])
}

fn fsub(cg: &JITCodegen, instruction: &Instruction) -> (r: Result<Vec<u8>, VMError>)
    requires
        !(lower_float(*cg, *instruction, float_op(OperationCode::FSUB)) is Panic),
        cg.registers_base() + 8 * 255 <= four_gib(),
    ensures
        produced(r, lower_float(*cg, *instruction, float_op(OperationCode::FSUB))),
{
    // `subsd xmm0, xmm1`
    binary_float(cg, instruction, &[0xF2, 0x0F, 0x5C, 0xC1])
}

fn fmul(cg: &JITCodegen, instruction: &Instruction) -> (r: Result<Vec<u8>, VMError>)
    requires
        !(lower_float(*cg, *instruction, float_op(OperationCode::FMUL)) is Panic),
        cg.registers_base() + 8 * 255 <= four_gib(),
    ensures
        produced(r, lower_float(*cg, *instruction, float_op(OperationCode::FMUL))),
{
    // `mulsd xmm0, xmm1`
    binary_float(cg, instruction, &[0xF2, 0x0F, 0x59, 0xC1])
}

fn fdiv(cg: &JITCodegen, instruction: &Instruction) -> (r: Result<Vec<u8>, VMError>)
    requires
        !(lower_float(*cg, *instruction, float_op(OperationCode::FDIV)) is Panic),
        cg.registers_base() + 8 * 255 <= four_gib(),
    ensures
        produced(r, lower_float(*cg, *instruction, float_op(OperationCode::FDIV))),
{
    // `divsd xmm0, xmm1`
    binary_float(cg, instruction, &[0xF2, 0x0F, 0x5E, 0xC1])
}

/// `FREM`: both operands go through the stack to the x87 unit, whose
/// partial remainder `fprem` repeats while the C2 status bit is set.
fn frem(cg: &JITCodegen, instruction: &Instruction) -> (r: Result<Vec<u8>, VMError>)
    requires
        !(lower_binary(*cg, *instruction, frem_body()) is Panic),
        cg.registers_base() + 8 * 255 <= four_gib(),
    ensures
        produced(r, lower_binary(*cg, *instruction, frem_body())),
{
    let mut body: Vec<u8> = Vec::new();
    // `sub esp, 16`, then both operands onto the stack.
    emit(&mut body, &[0x83, 0xEC, 0x10]);
    emit(&mut body, &[0x89, 0x04, 0x24]);
    emit(&mut body, &[0x89, 0x54, 0x24, 0x04]);
    emit(&mut body, &[0x89, 0x4C, 0x24, 0x08]);
    emit(&mut body, &[0x89, 0x5C, 0x24, 0x0C]);
    // `fld qword [esp + 8]`, then `fld qword [esp]`: ST0 % ST1 is lhs % rhs.
    emit(&mut body, &[0xDD, 0x44, 0x24, 0x08]);
    emit(&mut body, &[0xDD, 0x04, 0x24]);
    // `fprem`, `fnstsw ax`, `test ah, 04h`
    let fprem_offset = body.len();
    emit(&mut body, &[0xDE, 0xF8]);
    emit(&mut body, &[0xDF, 0xE0]);
    emit(&mut body, &[0xF6, 0xC4, 0x04]);
    // `jnz fprem`: back over the 2 + 2 + 3 bytes above and its own 2.
    let back = body.len() + 2 - fprem_offset;
    assert(back == 9);
    emit(&mut body, &[0x75, (256 - back) as u8]);
    // `fstp qword [esp]` (the remainder), `fstp st0` (the divisor),
    // `mov eax, [esp]`, `mov edx, [esp + 4]`, `add esp, 16`
    emit(&mut body, &[0xDD, 0x1C, 0x24]);
    emit(&mut body, &[0xDD, 0xD8]);
    emit(&mut body, &[0x8B, 0x04, 0x24]);
    emit(&mut body, &[0x8B, 0x54, 0x24, 0x04]);
    emit(&mut body, &[0x83, 0xC4, 0x10]);
    assert(body@ =~= frem_body());
    binary_integer(cg, instruction, body.as_slice())
}

/// A floating-point comparison: `ucomisd xmm0, xmm1`, the `condition`
/// given, the flag zero-extended into `EAX` and zero into `EDX`, then into
/// the destination.
fn binary_fcompare(cg: &JITCodegen, instruction: &Instruction, condition: &[u8]) -> (r: Result<Vec<u8>, VMError>)
    requires
        !(lower_fcompare(*cg, *instruction, condition@) is Panic),
        cg.registers_base() + 8 * 255 <= four_gib(),
    ensures
        produced(r, lower_fcompare(*cg, *instruction, condition@)),
{
    let (destination, lhs, rhs) = cg.destination_and_two(instruction)?;
    let mut code: Vec<u8> = Vec::new();
    load_float_operands(cg, &mut code, lhs, rhs);
    // `ucomisd xmm0, xmm1`
    emit(&mut code, &[0x66, 0x0F, 0x2E, 0xC1]);
    emit(&mut code, condition);
    // `movzx eax, al`, `add esp, 16`, `xor edx, edx`
    emit(&mut code, &[0x0F, 0xB6, 0xC0]);
    emit(&mut code, &[0x83, 0xC4, 0x10]);
    emit(&mut code, &[0x31, 0xD2]);
    store_eax_edx(cg, &mut code, destination);
    Ok(code)
}

fn feq(cg: &JITCodegen, instruction: &Instruction) -> (r: Result<Vec<u8>, VMError>)
    requires
        !(lower_fcompare(*cg, *instruction, float_condition(OperationCode::FEQ)) is Panic),
        cg.registers_base() + 8 * 255 <= four_gib(),
    ensures
        produced(r, lower_fcompare(*cg, *instruction, float_condition(OperationCode::FEQ))),
{
    // Ordered equality (ZF is also set when unordered): `sete al`,
    // `setnp cl`, `and al, cl`
    let condition: [u8; 8] = [0x0F, 0x94, 0xC0, 0x0F, 0x9B, 0xC1, 0x22, 0xC1];
    assert(condition@ =~= float_condition(OperationCode::FEQ));
    binary_fcompare(cg, instruction, &condition)
}

fn fne(cg: &JITCodegen, instruction: &Instruction) -> (r: Result<Vec<u8>, VMError>)
    requires
        !(lower_fcompare(*cg, *instruction, float_condition(OperationCode::FNE)) is Panic),
        cg.registers_base() + 8 * 255 <= four_gib(),
    ensures
        produced(r, lower_fcompare(*cg, *instruction, float_condition(OperationCode::FNE))),
{
    // Inequality or unordered (`!=` holds for NaN): `setne al`, `setp cl`,
    // `or al, cl`
    let condition: [u8; 8] = [0x0F, 0x95, 0xC0, 0x0F, 0x9A, 0xC1, 0x0A, 0xC1];
    assert(condition@ =~= float_condition(OperationCode::FNE));
    binary_fcompare(cg, instruction, &condition)
}

fn flt(cg: &JITCodegen, instruction: &Instruction) -> (r: Result<Vec<u8>, VMError>)
    requires
        !(lower_fcompare(*cg, *instruction, float_condition(OperationCode::FLT)) is Panic),
        cg.registers_base() + 8 * 255 <= four_gib(),
    ensures
        produced(r, lower_fcompare(*cg, *instruction, float_condition(OperationCode::FLT))),
{
    // Ordered less-than (CF is also set when unordered): `setb al`,
    // `setnp cl`, `and al, cl`
    let condition: [u8; 8] = [0x0F, 0x92, 0xC0, 0x0F, 0x9B, 0xC1, 0x22, 0xC1];
    assert(condition@ =~= float_condition(OperationCode::FLT));
    binary_fcompare(cg, instruction, &condition)
}

fn fle(cg: &JITCodegen, instruction: &Instruction) -> (r: Result<Vec<u8>, VMError>)
    requires
        !(lower_fcompare(*cg, *instruction, float_condition(OperationCode::FLE)) is Panic),
        cg.registers_base() + 8 * 255 <= four_gib(),
    ensures
        produced(r, lower_fcompare(*cg, *instruction, float_condition(OperationCode::FLE))),
{
    // `setbe al`, `setnp cl`, `and al, cl`
    let condition: [u8; 8] = [0x0F, 0x96, 0xC0, 0x0F, 0x9B, 0xC1, 0x22, 0xC1];
    assert(condition@ =~= float_condition(OperationCode::FLE));
    binary_fcompare(cg, instruction, &condition)
}

fn fgt(cg: &JITCodegen, instruction: &Instruction) -> (r: Result<Vec<u8>, VMError>)
    requires
        !(lower_fcompare(*cg, *instruction, float_condition(OperationCode::FGT)) is Panic),
        cg.registers_base() + 8 * 255 <= four_gib(),
    ensures
        produced(r, lower_fcompare(*cg, *instruction, float_condition(OperationCode::FGT))),
{
    // `seta al` (unordered sets ZF, so NaN is already excluded)
    let condition: [u8; 3] = [0x0F, 0x97, 0xC0];
    assert(condition@ =~= float_condition(OperationCode::FGT));
    binary_fcompare(cg, instruction, &condition)
}

fn fge(cg: &JITCodegen, instruction: &Instruction) -> (r: Result<Vec<u8>, VMError>)
    requires
        !(lower_fcompare(*cg, *instruction, float_condition(OperationCode::FGE)) is Panic),
        cg.registers_base() + 8 * 255 <= four_gib(),
    ensures
        produced(r, lower_fcompare(*cg, *instruction, float_condition(OperationCode::FGE))),
{
    // `setae al` (unordered sets CF, so NaN is already excluded)
    let condition: [u8; 3] = [0x0F, 0x93, 0xC0];
    assert(condition@ =~= float_condition(OperationCode::FGE));
    binary_fcompare(cg, instruction, &condition)
}

/// `EDX` pointed at the byte of the machine's memory whose offset is in
/// `EAX`.
fn memory_pointer_into_edx(code: &mut Vec<u8>, ctx: &GenContext)
    requires
        ctx.membase_addr < four_gib(),
    ensures
        final(code)@ == old(code)@ + memory_pointer(*ctx),
{
    // `mov edx, <membase cell>` (the cell's address: a host may replace the
    // buffer), `mov edx, [edx]`, `add edx, eax`
    emit(code, &[0xBA]);
    emit_u32(code, addr32(ctx.membase_addr));
    emit(code, &[0x8B, 0x12]);
    emit(code, &[0x01, 0xC2]);
}

/// `LOAD* <register>, <address>`: reads at the memory base plus the low 32
/// bits of the address, zero-extended into `EDX:EAX`.
fn load_(cg: &JITCodegen, instruction: &Instruction, ctx: &GenContext) -> (r: Result<Vec<u8>, VMError>)
    requires
        !(lower_load(*cg, *ctx, *instruction) is Panic),
        addressable(*cg, *ctx),
    ensures
        produced(r, lower_load(*cg, *ctx, *instruction)),
{
    let (destination, source) = cg.destination_and_one(instruction)?;
    let mut code: Vec<u8> = Vec::new();
    load_eax(cg, &mut code, source);
    memory_pointer_into_edx(&mut code, ctx);
    match instruction.opcode {
        // `movzx eax, byte [edx]`, `xor edx, edx`
        OperationCode::LOAD8 => emit(&mut code, &[0x0F, 0xB6, 0x02, 0x31, 0xD2]),
        // `movzx eax, word [edx]`, `xor edx, edx`
        OperationCode::LOAD16 => emit(&mut code, &[0x0F, 0xB7, 0x02, 0x31, 0xD2]),
        // `mov eax, dword [edx]`, `xor edx, edx`
        OperationCode::LOAD32 => emit(&mut code, &[0x8B, 0x02, 0x31, 0xD2]),
        // `mov eax, dword [edx]`, `mov edx, dword [edx + 4]`
        _ => emit(&mut code, &[0x8B, 0x02, 0x8B, 0x52, 0x04]),
    }
    store_eax_edx(cg, &mut code, destination);
    assert(code@ =~= eax_from(*cg, source) + memory_pointer(*ctx) + load_access(instruction.opcode) + pair_to(*cg, destination));
    Ok(code)
}

/// `STORE* <address>, <value>`: writes the low part of the value at the
/// memory base plus the low 32 bits of the address.
fn store_(cg: &JITCodegen, instruction: &Instruction, ctx: &GenContext) -> (r: Result<Vec<u8>, VMError>)
    requires
        !(lower_store(*cg, *ctx, *instruction) is Panic),
        addressable(*cg, *ctx),
    ensures
        produced(r, lower_store(*cg, *ctx, *instruction)),
{
    let (address, value) = instruction.expect2()?;
    check_register(address.kind)?;
    check_register(value.kind)?;
    let mut code: Vec<u8> = Vec::new();
    load_eax(cg, &mut code, address.kind);
    load_ecx_ebx(cg, &mut code, value.kind);
    memory_pointer_into_edx(&mut code, ctx);
    match instruction.opcode {
        // `mov [edx], cl`
        OperationCode::STORE8 => emit(&mut code, &[0x88, 0x0A]),
        // `mov [edx], cx`
        OperationCode::STORE16 => emit(&mut code, &[0x66, 0x89, 0x0A]),
        // `mov [edx], ecx`
        OperationCode::STORE32 => emit(&mut code, &[0x89, 0x0A]),
        // `mov [edx], ecx`, `mov [edx + 4], ebx`
        _ => emit(&mut code, &[0x89, 0x0A, 0x89, 0x5A, 0x04]),
    }
    assert(code@ =~= eax_from(*cg, address.kind) + second_pair(*cg, value.kind) + memory_pointer(*ctx) + store_access(instruction.opcode));
    Ok(code)
}

// ====== Emitting control flow ======

/// The base and the length of the address table are 32-bit numbers.
spec fn narrow(lay: &Layout) -> bool {
    lay.table_base < four_gib() && lay.table_len < four_gib()
}

/// An indirect jump to the instruction whose index is in `EAX`: the index
/// is checked against the address table, and an index outside it goes to
/// the epilogue.
fn emit_dynamic_jump(code: &mut Vec<u8>, lay: &Layout)
    requires
        old(code)@.len() <= REACH + 200,
        lay.bounded(),
        narrow(lay),
    ensures
        final(code)@ == old(code)@ + dynamic_jump(lay.targets(), old(code)@.len() as int),
{
    // `mov edx, <table base>`
    emit(code, &[0xBA]);
    emit_u32(code, addr32(lay.table_base));
    // `mov ecx, <table length>`
    emit(code, &[0xB9]);
    emit_u32(code, addr32(lay.table_len));
    // `cmp eax, ecx`, `jae <epilogue>`
    emit(code, &[0x39, 0xC8]);
    emit(code, &[0x0F, 0x83]);
    let pos = code.len();
    emit(code, &rel32_field(pos, lay.epilogue));
    // `mov eax, [edx + eax * 4]`, `jmp eax`
    emit(code, &[0x8B, 0x04, 0x82]);
    emit(code, &[0xFF, 0xE0]);
}

/// A call of the trampoline that pushes `ret_idx` onto the call stack.
fn emit_call_push(cg: &JITCodegen, code: &mut Vec<u8>, ret_idx: usize, ctx: &GenContext)
    requires
        addressable(*cg, *ctx),
    ensures
        final(code)@ == old(code)@ + call_push(*cg, *ctx, ret_idx as u64),
{
    // `sub esp, 16`: room for the two arguments, keeping the alignment.
    emit(code, &[0x83, 0xEC, 0x10]);
    // `mov dword [esp], <stack>`
    emit(code, &[0xC7, 0x44, 0x24, 0x00]);
    emit_u32(code, addr32(cg.call_stack_address()));
    // `mov dword [esp + 4], <ret_idx>` (its low 32 bits)
    emit(code, &[0xC7, 0x44, 0x24, 0x04]);
    emit_u32(code, (ret_idx as u64) as u32);
    // `mov eax, <trampoline>`, `call eax`, `add esp, 16`
    emit(code, &[0xB8]);
    emit_u32(code, addr32(ctx.call_push));
    emit(code, &[0xFF, 0xD0]);
    emit(code, &[0x83, 0xC4, 0x10]);
    assert(code@ =~= old(code)@ + call_push(*cg, *ctx, ret_idx as u64));
}

/// `JMP <target>`: a `rel32` jump to an immediate target, an indirect jump
/// through the address table to a register target.
fn jmp_(cg: &JITCodegen, instruction: &Instruction, code: &mut Vec<u8>, lay: &Layout) -> (r: Result<(), VMError>)
    requires
        !(lower_jmp(*cg, *instruction, old(code)@.len() as int, lay.targets()) is Panic),
        old(code)@.len() <= REACH,
        lay.bounded(),
        narrow(lay),
        cg.registers_base() + 8 * 255 <= four_gib(),
    ensures
        appended(r, old(code)@, final(code)@, lower_jmp(*cg, *instruction, old(code)@.len() as int, lay.targets())),
{
    let target = instruction.expect1()?;
    check_register(target.kind)?;
    let ghost start = code@.len() as int;
    match target.kind {
        OperandKind::Immediate(value) => {
            // `jmp rel32`
            emit(code, &[0xE9]);
            let pos = code.len();
            emit(code, &rel32_field(pos, lay.target(value as usize)));
        },
        OperandKind::Register(_) => {
            load_eax(cg, code, target.kind);
            emit_dynamic_jump(code, lay);
        },
    }
    assert(code@ =~= old(code)@ + code_of(lower_jmp(*cg, *instruction, start, lay.targets())));
    Ok(())
}

/// `JZ` and `JNZ`: on an immediate target, `jz`/`jnz rel32` on both halves
/// of the condition; on a register target, the condition skips the 23 bytes
/// of an indirect jump.
#[verifier::rlimit(60)]
fn branch_(cg: &JITCodegen, instruction: &Instruction, code: &mut Vec<u8>, lay: &Layout) -> (r: Result<(), VMError>)
    requires
        !(lower_branch(*cg, *instruction, old(code)@.len() as int, lay.targets()) is Panic),
        old(code)@.len() <= REACH,
        lay.bounded(),
        narrow(lay),
        cg.registers_base() + 8 * 255 <= four_gib(),
    ensures
        appended(r, old(code)@, final(code)@, lower_branch(*cg, *instruction, old(code)@.len() as int, lay.targets())),
{
    let jz = instruction.opcode == OperationCode::JZ;
    let (condition, target) = instruction.expect2()?;
    check_register(condition.kind)?;
    check_register(target.kind)?;
    let ghost start = code@.len() as int;
    match target.kind {
        OperandKind::Immediate(value) => {
            load_eax_edx(cg, code, condition.kind);
            // `or eax, edx`: zero when both halves are.
            emit(code, &[0x09, 0xD0]);
            // `jz rel32` or `jnz rel32`
            if jz {
                emit(code, &[0x0F, 0x84]);
            } else {
                emit(code, &[0x0F, 0x85]);
            }
            let pos = code.len();
            emit(code, &rel32_field(pos, lay.target(value as usize)));
        },
        OperandKind::Register(_) => {
            // The target index goes to EAX first; the condition follows into
            // EBX:ECX, which never touches EAX.
            load_eax(cg, code, target.kind);
            load_ecx_ebx(cg, code, condition.kind);
            // `or ecx, ebx`
            emit(code, &[0x09, 0xD9]);
            // `jnz <next>` for `JZ`, `jz <next>` for `JNZ`
            if jz {
                emit(code, &[0x0F, 0x85]);
            } else {
                emit(code, &[0x0F, 0x84]);
            }
            emit(code, &[23, 0, 0, 0]);
            proof {
                lemma_ahead(23);
            }
            emit_dynamic_jump(code, lay);
        },
    }
    assert(code@ =~= old(code)@ + code_of(lower_branch(*cg, *instruction, start, lay.targets())));
    Ok(())
}

/// `CALL <target>`: pushes the index of the next instruction (known when
/// generating), then jumps as `JMP` does; a register target is kept across
/// the trampoline call in a 16-byte block.
#[verifier::rlimit(60)]
fn call_(
    cg: &JITCodegen,
    instruction: &Instruction,
    index: usize,
    code: &mut Vec<u8>,
    lay: &Layout,
    ctx: &GenContext,
) -> (r: Result<(), VMError>)
    requires
        !(lower_call(*cg, *ctx, *instruction, index as int, old(code)@.len() as int, lay.targets()) is Panic),
        index < usize::MAX,
        old(code)@.len() <= REACH,
        lay.bounded(),
        narrow(lay),
        addressable(*cg, *ctx),
    ensures
        appended(
            r,
            old(code)@,
            final(code)@,
            lower_call(*cg, *ctx, *instruction, index as int, old(code)@.len() as int, lay.targets()),
        ),
{
    let target = instruction.expect1()?;
    check_register(target.kind)?;
    let ghost start = code@.len() as int;
    let ret_idx = index + 1;
    match target.kind {
        OperandKind::Immediate(value) => {
            emit_call_push(cg, code, ret_idx, ctx);
            // `jmp rel32`
            emit(code, &[0xE9]);
            let pos = code.len();
            emit(code, &rel32_field(pos, lay.target(value as usize)));
        },
        OperandKind::Register(_) => {
            load_eax(cg, code, target.kind);
            // `sub esp, 16`, `mov [esp], eax`
            emit(code, &[0x83, 0xEC, 0x10]);
            emit(code, &[0x89, 0x04, 0x24]);
            emit_call_push(cg, code, ret_idx, ctx);
            // `mov eax, [esp]`, `add esp, 16`
            emit(code, &[0x8B, 0x04, 0x24]);
            emit(code, &[0x83, 0xC4, 0x10]);
            emit_dynamic_jump(code, lay);
        },
    }
    assert(code@ =~= old(code)@ + code_of(
        lower_call(*cg, *ctx, *instruction, index as int, start, lay.targets()),
    ));
    Ok(())
}

/// `RET`: pops the return index through the trampoline (into the scratch
/// cell) and jumps to it; on an empty call stack, goes to the error stub.
#[verifier::rlimit(60)]
fn ret_(cg: &JITCodegen, instruction: &Instruction, code: &mut Vec<u8>, lay: &Layout, ctx: &GenContext) -> (r: Result<(), VMError>)
    requires
        old(code)@.len() <= REACH,
        lay.bounded(),
        narrow(lay),
        addressable(*cg, *ctx),
    ensures
        appended(r, old(code)@, final(code)@, lower_ret(*cg, *ctx, *instruction, old(code)@.len() as int, lay.targets())),
{
    let count = instruction.operand_count();
    if count != 0 {
        return Err(
            VMError::new(VMErrorKind::IncorrectNumberOfOperands { expected: 0, got: count as u8 }),
        );
    }
    let ghost start = code@;
    // `sub esp, 16`, `mov dword [esp], <stack>`
    emit(code, &[0x83, 0xEC, 0x10]);
    emit(code, &[0xC7, 0x44, 0x24, 0x00]);
    emit_u32(code, addr32(cg.call_stack_address()));
    // `mov eax, <scratch>`, `mov [esp + 4], eax`
    emit(code, &[0xB8]);
    emit_u32(code, addr32(ctx.scratch_addr));
    emit(code, &[0x89, 0x44, 0x24, 0x04]);
    // `mov eax, <trampoline>`, `call eax`, `add esp, 16`
    emit(code, &[0xB8]);
    emit_u32(code, addr32(ctx.call_pop));
    emit(code, &[0xFF, 0xD0]);
    emit(code, &[0x83, 0xC4, 0x10]);
    // The trampoline returns 1 with the index in the scratch cell, 0 on an
    // empty stack: `test al, al`, `jz <error stub>`.
    emit(code, &[0x84, 0xC0]);
    emit(code, &[0x0F, 0x84]);
    let pos = code.len();
    emit(code, &rel32_field(pos, lay.error_stub));
    // `mov eax, [scratch]`
    emit(code, &[0xA1]);
    emit_u32(code, addr32(ctx.scratch_addr));
    emit_dynamic_jump(code, lay);
    assert(code@ =~= start + code_of(lower_ret(*cg, *ctx, *instruction, start.len() as int, lay.targets())));
    Ok(())
}

/// The operand into `EDX:EAX`, then both halves into the argument slots
/// `[esp + low]` and `[esp + low + 4]`.
fn argument_pair(cg: &JITCodegen, code: &mut Vec<u8>, operand: OperandKind, slots: &[u8])
    requires
        fits(operand),
        cg.registers_base() + 8 * 255 <= four_gib(),
    ensures
        final(code)@ == old(code)@ + first_pair(*cg, operand) + slots@,
{
    load_eax_edx(cg, code, operand);
    emit(code, slots);
}

/// The call of the `VMCALL` trampoline (see [`vmcall_call`]).
#[verifier::rlimit(100)]
fn vmcall_sequence(
    cg: &JITCodegen,
    code: &mut Vec<u8>,
    ctx: &GenContext,
    service: OperandKind,
    address: OperandKind,
    size: OperandKind,
)
    requires
        fits(service),
        fits(address),
        fits(size),
        addressable(*cg, *ctx),
    ensures
        final(code)@ == old(code)@ + vmcall_call(*cg, *ctx, service, address, size),
{
    // `sub esp, 32`: the seven argument slots, keeping the alignment.
    emit(code, &[0x83, 0xEC, 0x20]);
    // `mov dword [esp], <machine>`
    emit(code, &[0xC7, 0x44, 0x24, 0x00]);
    emit_u32(code, addr32(ctx.wvm));
    // The service at `[esp + 4]`, the address at `[esp + 12]`, the size at
    // `[esp + 20]`, two slots each.
    argument_pair(cg, code, service, &[0x89, 0x44, 0x24, 0x04, 0x89, 0x54, 0x24, 0x08]);
    argument_pair(cg, code, address, &[0x89, 0x44, 0x24, 0x0C, 0x89, 0x54, 0x24, 0x10]);
    argument_pair(cg, code, size, &[0x89, 0x44, 0x24, 0x14, 0x89, 0x54, 0x24, 0x18]);
    // The out block at `[esp + 28]`: `mov eax, <out>`, `mov [esp + 28], eax`
    emit(code, &[0xB8]);
    emit_u32(code, addr32(ctx.out));
    emit(code, &[0x89, 0x44, 0x24, 0x1C]);
    // `mov eax, <trampoline>`, `call eax`, `add esp, 32`
    emit(code, &[0xB8]);
    emit_u32(code, addr32(ctx.vmcall));
    emit(code, &[0xFF, 0xD0]);
    emit(code, &[0x83, 0xC4, 0x20]);
    // The `u64` outcome comes back in `EDX:EAX`: `or eax, edx`
    emit(code, &[0x09, 0xD0]);
    assert(code@ =~= old(code)@ + vmcall_call(*cg, *ctx, service, address, size));
}

/// `VMCALL <service>, <address>, <size>`: calls the trampoline; a nonzero
/// outcome goes to the epilogue.
#[verifier::rlimit(100)]
fn vmcall(cg: &JITCodegen, instruction: &Instruction, code: &mut Vec<u8>, lay: &Layout, ctx: &GenContext) -> (r: Result<(), VMError>)
    requires
        !(lower_vmcall(*cg, *ctx, *instruction, old(code)@.len() as int, lay.targets()) is Panic),
        old(code)@.len() <= REACH,
        lay.bounded(),
        addressable(*cg, *ctx),
    ensures
        appended(r, old(code)@, final(code)@, lower_vmcall(*cg, *ctx, *instruction, old(code)@.len() as int, lay.targets())),
{
    let (service, address, size) = instruction.expect3()?;
    check_register(service.kind)?;
    check_register(address.kind)?;
    check_register(size.kind)?;
    let ghost start = code@;
    let mut call: Vec<u8> = Vec::new();
    vmcall_sequence(cg, &mut call, ctx, service.kind, address.kind, size.kind);
    let ghost c = vmcall_call(*cg, *ctx, service.kind, address.kind, size.kind);
    emit(code, call.as_slice());
    // `jnz <epilogue>`
    emit(code, &[0x0F, 0x85]);
    let pos = code.len();
    emit(code, &rel32_field(pos, lay.epilogue));
    proof {
        let whole = c + seq![0x0Fu8, 0x85u8] + rel32(start.len() + c.len() + 2int, lay.epilogue as int);
        assert(pos == start.len() + c.len() + 2);
        assert(code@ =~= start + whole);
        assert(lower_vmcall(*cg, *ctx, *instruction, start.len() as int, lay.targets()) == Lowering::Code(whole));
    }
    Ok(())
}

/// The call of a division helper (see [`division_call`]).
#[verifier::rlimit(100)]
fn division_sequence(
    cg: &JITCodegen,
    code: &mut Vec<u8>,
    ctx: &GenContext,
    lhs: OperandKind,
    rhs: OperandKind,
    helper: u64,
)
    requires
        fits(lhs),
        fits(rhs),
        addressable(*cg, *ctx),
        helper < four_gib(),
    ensures
        final(code)@ == old(code)@ + division_call(*cg, *ctx, lhs, rhs, helper),
{
    // `sub esp, 32`: six argument slots and the 8-byte result cell at
    // `[esp + 24]`, keeping the alignment.
    emit(code, &[0x83, 0xEC, 0x20]);
    // `lhs` at `[esp]`, `rhs` at `[esp + 8]`
    argument_pair(cg, code, lhs, &[0x89, 0x04, 0x24, 0x89, 0x54, 0x24, 0x04]);
    argument_pair(cg, code, rhs, &[0x89, 0x44, 0x24, 0x08, 0x89, 0x54, 0x24, 0x0C]);
    // The result pointer at `[esp + 16]`: `mov eax, esp`, `add eax, 24`,
    // `mov [esp + 16], eax`
    emit(code, &[0x89, 0xE0]);
    emit(code, &[0x83, 0xC0, 0x18]);
    emit(code, &[0x89, 0x44, 0x24, 0x10]);
    // The out block at `[esp + 20]`: `mov eax, <out>`, `mov [esp + 20], eax`
    emit(code, &[0xB8]);
    emit_u32(code, addr32(ctx.out));
    emit(code, &[0x89, 0x44, 0x24, 0x14]);
    // `mov eax, <helper>`, `call eax`
    emit(code, &[0xB8]);
    emit_u32(code, addr32(helper));
    emit(code, &[0xFF, 0xD0]);
    // The `u64` outcome, both halves folded: `mov ecx, eax`, `or ecx, edx`
    emit(code, &[0x89, 0xC1]);
    emit(code, &[0x09, 0xD1]);
    // The result: `mov eax, [esp + 24]`, `mov edx, [esp + 28]`; the frame
    // is released before any branch: `add esp, 32`; `test ecx, ecx`
    emit(code, &[0x8B, 0x44, 0x24, 0x18]);
    emit(code, &[0x8B, 0x54, 0x24, 0x1C]);
    emit(code, &[0x83, 0xC4, 0x20]);
    emit(code, &[0x85, 0xC9]);
    assert(code@ =~= old(code)@ + division_call(*cg, *ctx, lhs, rhs, helper));
}

/// `SDIV`, `UDIV`, `SREM` and `UREM`, through the helper of the opcode: the
/// operands go in as two `u64` arguments, a nonzero outcome (a zero
/// divisor) goes to the epilogue, and the result into the destination.
#[verifier::rlimit(100)]
fn div_(
    cg: &JITCodegen,
    instruction: &Instruction,
    helper: u64,
    code: &mut Vec<u8>,
    lay: &Layout,
    ctx: &GenContext,
) -> (r: Result<(), VMError>)
    requires
        !(lower_division(*cg, *ctx, *instruction, old(code)@.len() as int, lay.targets()) is Panic),
        helper == division_helper(*ctx, instruction.opcode),
        old(code)@.len() <= REACH,
        lay.bounded(),
        addressable(*cg, *ctx),
    ensures
        appended(r, old(code)@, final(code)@, lower_division(*cg, *ctx, *instruction, old(code)@.len() as int, lay.targets())),
{
    let (destination, lhs, rhs) = cg.destination_and_two(instruction)?;
    let ghost start = code@;
    let mut call: Vec<u8> = Vec::new();
    division_sequence(cg, &mut call, ctx, lhs, rhs, helper);
    let ghost c = division_call(*cg, *ctx, lhs, rhs, helper);
    emit(code, call.as_slice());
    // `jnz <epilogue>`
    emit(code, &[0x0F, 0x85]);
    let pos = code.len();
    emit(code, &rel32_field(pos, lay.epilogue));
    store_eax_edx(cg, code, destination);
    proof {
        let whole = c + seq![0x0Fu8, 0x85u8] + rel32(start.len() + c.len() + 2int, lay.epilogue as int)
            + pair_to(*cg, destination);
        assert(pos == start.len() + c.len() + 2);
        assert(code@ =~= start + whole);
        assert(lower_division(*cg, *ctx, *instruction, start.len() as int, lay.targets()) == Lowering::Code(whole));
    }
    Ok(())
}

/// Lowers the `index`-th instruction at the end of `code`, with the
/// targets of `lay`.
#[verifier::rlimit(100)]
fn lower_instruction(
    cg: &JITCodegen,
    instruction: &Instruction,
    index: usize,
    ctx: &GenContext,
    lay: &Layout,
    code: &mut Vec<u8>,
) -> (r: Result<(), VMError>)
    requires
        !(lower(*cg, *ctx, *instruction, index as int, old(code)@.len() as int, lay.targets()) is Panic),
        index < usize::MAX,
        old(code)@.len() <= REACH,
        lay.bounded(),
        narrow(lay),
        addressable(*cg, *ctx),
    ensures
        appended(
            r,
            old(code)@,
            final(code)@,
            lower(*cg, *ctx, *instruction, index as int, old(code)@.len() as int, lay.targets()),
        ),
{
    proof {
        reveal(lower);
    }
    // Most opcodes produce self-contained bytes; control flow and the
    // divisions append directly, since their bytes depend on where they lie.
    let bytes = match instruction.opcode {
        OperationCode::NOP => nop()?,
        OperationCode::MOVE => mov(cg, instruction)?,
        OperationCode::IADD => iadd(cg, instruction)?,
        OperationCode::ISUB => isub(cg, instruction)?,
        OperationCode::IMUL => imul(cg, instruction)?,
        OperationCode::SDIV => {
            return div_(cg, instruction, ctx.sdiv, code, lay, ctx);
        },
        OperationCode::UDIV => {
            return div_(cg, instruction, ctx.udiv, code, lay, ctx);
        },
        OperationCode::SREM => {
            return div_(cg, instruction, ctx.srem, code, lay, ctx);
        },
        OperationCode::UREM => {
            return div_(cg, instruction, ctx.urem, code, lay, ctx);
        },
        OperationCode::INEG => ineg(cg, instruction)?,
        OperationCode::AND => and_(cg, instruction)?,
        OperationCode::OR => or_(cg, instruction)?,
        OperationCode::XOR => xor_(cg, instruction)?,
        OperationCode::NOT => not_(cg, instruction)?,
        OperationCode::LSL => lsl(cg, instruction)?,
        OperationCode::LSR => lsr(cg, instruction)?,
        OperationCode::SAR => sar(cg, instruction)?,
        OperationCode::IEQ | OperationCode::INE | OperationCode::SLT | OperationCode::SLE
        | OperationCode::SGT | OperationCode::SGE | OperationCode::ULT | OperationCode::ULE
        | OperationCode::UGT | OperationCode::UGE => compare(cg, instruction)?,
        OperationCode::FADD => fadd(cg, instruction)?,
        OperationCode::FSUB => fsub(cg, instruction)?,
        OperationCode::FMUL => fmul(cg, instruction)?,
        OperationCode::FDIV => fdiv(cg, instruction)?,
        OperationCode::FREM => frem(cg, instruction)?,
        OperationCode::FNEG => fneg(cg, instruction)?,
        OperationCode::FEQ => feq(cg, instruction)?,
        OperationCode::FNE => fne(cg, instruction)?,
        OperationCode::FLT => flt(cg, instruction)?,
        OperationCode::FLE => fle(cg, instruction)?,
        OperationCode::FGT => fgt(cg, instruction)?,
        OperationCode::FGE => fge(cg, instruction)?,
        OperationCode::LOAD8 | OperationCode::LOAD16 | OperationCode::LOAD32
        | OperationCode::LOAD64 => load_(cg, instruction, ctx)?,
        OperationCode::STORE8 | OperationCode::STORE16 | OperationCode::STORE32
        | OperationCode::STORE64 => store_(cg, instruction, ctx)?,
        OperationCode::JMP => {
            return jmp_(cg, instruction, code, lay);
        },
        OperationCode::JZ | OperationCode::JNZ => {
            return branch_(cg, instruction, code, lay);
        },
        OperationCode::CALL => {
            return call_(cg, instruction, index, code, lay, ctx);
        },
        OperationCode::RET => {
            return ret_(cg, instruction, code, lay, ctx);
        },
        OperationCode::VMCALL => {
            return vmcall(cg, instruction, code, lay, ctx);
        },
    };
    emit(code, bytes.as_slice());
    Ok(())
}

// ====== The whole program ======

/// Once an instruction among the first `m` cannot be lowered, it is the
/// first failure among more of them too.
proof fn lemma_first_failure_stays(cg: JITCodegen, ctx: GenContext, program: Seq<Instruction>, m: nat, n: nat)
    requires
        m <= n,
        first_failure(cg, ctx, program, m) is Some,
    ensures
        first_failure(cg, ctx, program, n) == first_failure(cg, ctx, program, m),
    decreases n,
{
    if n > m {
        lemma_first_failure_stays(cg, ctx, program, m, (n - 1) as nat);
    }
}

/// Without a failure among the first `n`, each of them lowers to code.
proof fn lemma_no_failure_each(cg: JITCodegen, ctx: GenContext, program: Seq<Instruction>, n: nat, j: int)
    requires
        first_failure(cg, ctx, program, n) is None,
        0 <= j < n,
    ensures
        lower(cg, ctx, program[j], j, 0, blank()) is Code,
    decreases n,
{
    if j < n - 1 {
        lemma_no_failure_each(cg, ctx, program, (n - 1) as nat, j);
    } else {
        lemma_lower_shape(cg, ctx, program[j], j, 0, blank());
    }
}

/// Instructions start in order after the prologue.
proof fn lemma_starts(cg: JITCodegen, ctx: GenContext, program: Seq<Instruction>, j: nat, k: nat)
    requires
        j <= k,
        k <= program.len(),
    ensures
        6 <= start_of(cg, ctx, program, j) <= start_of(cg, ctx, program, k),
    decreases k,
{
    if k > 0 {
        lemma_lower_shape(cg, ctx, program[k - 1], 0, 0, blank());
        if j < k {
            lemma_starts(cg, ctx, program, j, (k - 1) as nat);
        } else {
            lemma_starts(cg, ctx, program, (k - 1) as nat, (k - 1) as nat);
        }
    }
}

/// Which pieces the program needs: whether it has a `RET`, a jump to a
/// register target, a `VMCALL`, a division.
fn scan(instructions: &[Instruction]) -> (r: (bool, bool, bool, bool))
    ensures
        r.0 == has_ret(instructions@),
        r.0 || r.1 == needs_table(instructions@),
        r.2 == has_vmcall(instructions@),
        r.3 == has_division(instructions@),
{
    let n = instructions.len();
    let ghost program = instructions@;
    let mut need_error_stub = false;
    let mut any_dynamic = false;
    let mut any_vmcall = false;
    let mut any_division = false;
    let mut k: usize = 0;
    while k < n
        invariant
            n == program.len(),
            program == instructions@,
            k <= n,
            need_error_stub == exists|j: int| 0 <= j < k && #[trigger] program[j].opcode == OperationCode::RET,
            any_vmcall == exists|j: int| 0 <= j < k && #[trigger] program[j].opcode == OperationCode::VMCALL,
            any_dynamic == exists|j: int| 0 <= j < k && register_target(#[trigger] program[j]),
            any_division == exists|j: int| 0 <= j < k && is_division(#[trigger] program[j].opcode),
        decreases n - k,
    {
        let instruction = &instructions[k];
        let op = instruction.opcode;
        if op == OperationCode::RET {
            need_error_stub = true;
        }
        if op == OperationCode::VMCALL {
            any_vmcall = true;
        }
        if op == OperationCode::SDIV || op == OperationCode::UDIV || op == OperationCode::SREM
            || op == OperationCode::UREM {
            any_division = true;
        }
        if has_register_target(instruction) {
            any_dynamic = true;
        }
        k = k + 1;
    }
    (need_error_stub, any_dynamic, any_vmcall, any_division)
}

/// The first pass: lowers every instruction with placeholder targets, to
/// learn where each starts; the error of the first that cannot be lowered.
fn measure(cg: &JITCodegen, instructions: &[Instruction], ctx: &GenContext) -> (r: Result<(Vec<usize>, usize), VMError>)
    requires
        !(first_failure(*cg, *ctx, instructions@, instructions@.len()) matches Some(Lowering::Panic)),
        within_reach(*cg, *ctx, instructions@),
        addressable(*cg, *ctx),
    ensures
        match first_failure(*cg, *ctx, instructions@, instructions@.len()) {
            Some(Lowering::Error(e)) => r matches Err(x) && x.kind == e,
            _ => r matches Ok((offsets, end)) && first_failure(*cg, *ctx, instructions@, instructions@.len()) is None
                && offsets@.len() == instructions@.len() && end == body_end(*cg, *ctx, instructions@)
                && end <= REACH && (forall|j: int|
                0 <= j < instructions@.len() ==> #[trigger] offsets@[j] == start_of(
                    *cg,
                    *ctx,
                    instructions@,
                    j as nat,
                ) && offsets@[j] <= REACH),
        },
{
    let n = instructions.len();
    let ghost program = instructions@;
    let blank_layout = Layout { offsets: Vec::new(), epilogue: 0, error_stub: 0, table_base: 0, table_len: 0 };
    assert(blank_layout.offsets@.map_values(|o: usize| o as int) =~= Seq::<int>::empty());
    assert(blank_layout.targets() =~= blank());
    let mut offsets: Vec<usize> = Vec::new();
    // The prologue comes first.
    let mut measured: Vec<u8> = Vec::new();
    emit(&mut measured, &[0x53, 0x56, 0x57, 0x83, 0xEC, 0x10]);
    let mut index: usize = 0;
    while index < n
        invariant
            n == program.len(),
            program == instructions@,
            within_reach(*cg, *ctx, program),
            index <= n,
            addressable(*cg, *ctx),
            blank_layout.targets() == blank(),
            blank_layout.bounded(),
            narrow(&blank_layout),
            !(first_failure(*cg, *ctx, program, n as nat) matches Some(Lowering::Panic)),
            first_failure(*cg, *ctx, program, index as nat) is None,
            measured@.len() == start_of(*cg, *ctx, program, index as nat),
            offsets@.len() == index,
            forall|j: int| 0 <= j < index ==> #[trigger] offsets@[j] == start_of(*cg, *ctx, program, j as nat),
        decreases n - index,
    {
        proof {
            lemma_starts(*cg, *ctx, program, index as nat, index as nat);
            lemma_lower_shape(*cg, *ctx, program[index as int], index as int, measured@.len() as int, blank());
            lemma_lower_shape(*cg, *ctx, program[index as int], index as int, 0, blank());
            assert(((index + 1) - 1) as nat == index as nat);
            if !(lower(*cg, *ctx, program[index as int], index as int, 0, blank()) is Code) {
                lemma_first_failure_stays(*cg, *ctx, program, (index + 1) as nat, n as nat);
            }
        }
        offsets.push(measured.len());
        match lower_instruction(cg, &instructions[index], index, ctx, &blank_layout, &mut measured) {
            Ok(()) => {},
            Err(e) => {
                return Err(e);
            },
        }
        index = index + 1;
    }
    proof {
        assert forall|j: int| 0 <= j < n implies #[trigger] offsets@[j] <= REACH by {
            lemma_starts(*cg, *ctx, program, j as nat, n as nat);
        }
        assert(first_failure(*cg, *ctx, program, n as nat) is None);
        lemma_starts(*cg, *ctx, program, n as nat, n as nat);
    }
    Ok((offsets, measured.len()))
}

/// The second pass: the prologue, then every instruction in place with its
/// targets resolved.
fn emit_body(cg: &JITCodegen, instructions: &[Instruction], ctx: &GenContext, lay: &Layout) -> (r: Vec<u8>)
    requires
        first_failure(*cg, *ctx, instructions@, instructions@.len()) is None,
        within_reach(*cg, *ctx, instructions@),
        lay.targets() == resolved(*cg, *ctx, instructions@),
        lay.bounded(),
        narrow(lay),
        addressable(*cg, *ctx),
    ensures
        r@ == prologue() + body(*cg, *ctx, instructions@, instructions@.len()),
        r@.len() == body_end(*cg, *ctx, instructions@),
{
    let n = instructions.len();
    let ghost program = instructions@;
    // `push ebx`, `push esi`, `push edi`: the callee-saved registers the
    // code uses; `sub esp, 16`: the i386 System V entry has `ESP % 16 ==
    // 12`, so the stack is 16-byte aligned from here on.
    let mut machine_code: Vec<u8> = Vec::new();
    emit(&mut machine_code, &[0x53, 0x56, 0x57, 0x83, 0xEC, 0x10]);
    assert(machine_code@ =~= prologue() + body(*cg, *ctx, program, 0));
    let mut index: usize = 0;
    while index < n
        invariant
            n == program.len(),
            program == instructions@,
            within_reach(*cg, *ctx, program),
            index <= n,
            lay.targets() == resolved(*cg, *ctx, program),
            lay.bounded(),
            narrow(lay),
            addressable(*cg, *ctx),
            first_failure(*cg, *ctx, program, n as nat) is None,
            machine_code@ == prologue() + body(*cg, *ctx, program, index as nat),
            machine_code@.len() == start_of(*cg, *ctx, program, index as nat),
        decreases n - index,
    {
        proof {
            lemma_starts(*cg, *ctx, program, index as nat, n as nat);
            lemma_lower_shape(*cg, *ctx, program[index as int], index as int, machine_code@.len() as int, resolved(*cg, *ctx, program));
            lemma_lower_shape(*cg, *ctx, program[index as int], index as int, 0, blank());
            lemma_no_failure_each(*cg, *ctx, program, n as nat, index as int);
            assert(((index + 1) - 1) as nat == index as nat);
        }
        let _ = lower_instruction(cg, &instructions[index], index, ctx, lay, &mut machine_code);
        index = index + 1;
    }
    machine_code
}

/// The address table: the 32-bit absolute address of each instruction.
fn emit_table(cg: &JITCodegen, code: &mut Vec<u8>, instructions: &[Instruction], ctx: &GenContext, lay: &Layout)
    requires
        lay.targets() == resolved(*cg, *ctx, instructions@),
        lay.offsets@.len() == instructions@.len(),
        needs_table(instructions@),
        table_addressable(*cg, *ctx, instructions@),
    ensures
        final(code)@ == old(code)@ + table(*cg, *ctx, instructions@, instructions@.len()),
{
    let n = lay.offsets.len();
    let ghost program = instructions@;
    let mut k: usize = 0;
    while k < n
        invariant
            n == program.len(),
            n == lay.offsets@.len(),
            k <= n,
            lay.targets() == resolved(*cg, *ctx, program),
            needs_table(program),
            table_addressable(*cg, *ctx, program),
            code@ == old(code)@ + table(*cg, *ctx, program, k as nat),
        decreases n - k,
    {
        proof {
            assert(((k + 1) - 1) as nat == k as nat);
            assert(lay.targets().offsets[k as int] == lay.offsets@[k as int] as int);
            lemma_starts(*cg, *ctx, program, k as nat, n as nat);
        }
        emit_u32(code, addr32(ctx.code_base + lay.offsets[k] as u64));
        k = k + 1;
    }
}

/// Whether the program needs a jump to the epilogue after its last
/// instruction (see [`closing_jump`]).
fn closes(instructions: &[Instruction], need_error_stub: bool) -> (r: bool)
    requires
        need_error_stub == has_ret(instructions@),
    ensures
        r == closing_jump(instructions@),
{
    let n = instructions.len();
    need_error_stub && n > 0 && {
        let op = instructions[n - 1].opcode;
        !(op == OperationCode::JMP || op == OperationCode::CALL || op == OperationCode::RET)
    }
}

/// Where the targets lie, from where each instruction starts and where the
/// instructions end.
fn place(
    cg: &JITCodegen,
    instructions: &[Instruction],
    ctx: &GenContext,
    offsets: Vec<usize>,
    end: usize,
    need_error_stub: bool,
    need_table: bool,
) -> (r: Layout)
    requires
        need_error_stub == has_ret(instructions@),
        need_table == needs_table(instructions@),
        first_failure(*cg, *ctx, instructions@, instructions@.len()) is None,
        within_reach(*cg, *ctx, instructions@),
        offsets@.len() == instructions@.len(),
        end == body_end(*cg, *ctx, instructions@),
        end <= REACH,
        forall|j: int|
            0 <= j < instructions@.len() ==> #[trigger] offsets@[j] == start_of(
                *cg,
                *ctx,
                instructions@,
                j as nat,
            ) && offsets@[j] <= REACH,
        table_addressable(*cg, *ctx, instructions@),
    ensures
        r.targets() == resolved(*cg, *ctx, instructions@),
        r.bounded(),
        narrow(&r),
        r.offsets@.len() == instructions@.len(),
        r.epilogue == epilogue_at(*cg, *ctx, instructions@),
{
    let n = instructions.len();
    let ghost program = instructions@;
    let closing = closes(instructions, need_error_stub);
    let stub: usize = if closing { end + 5 } else { end };
    let epilogue: usize = if need_error_stub { stub + 20 } else { stub };
    let pad: usize = if need_table { (4 - (epilogue + 7) % 4) % 4 } else { 0 };
    let table_start: usize = epilogue + 7 + pad;
    let table_base: u64 = if need_table { ctx.code_base + table_start as u64 } else { 0 };
    let table_len: u64 = if need_table { n as u64 } else { 0 };
    let lay = Layout { offsets, epilogue, error_stub: stub, table_base, table_len };
    proof {
        assert(stub == stub_at(*cg, *ctx, program));
        assert(epilogue == epilogue_at(*cg, *ctx, program));
        assert(pad == padding(*cg, *ctx, program));
        assert(table_start == table_at(*cg, *ctx, program));
        assert(lay.offsets@.map_values(|o: usize| o as int) =~= resolved(*cg, *ctx, program).offsets);
        assert(lay.targets() =~= resolved(*cg, *ctx, program));
    }
    lay
}

/// What follows the instructions: the error stub, the epilogue and the
/// aligned address table, each where the program needs it.
fn emit_tail(
    cg: &JITCodegen,
    code: &mut Vec<u8>,
    instructions: &[Instruction],
    ctx: &GenContext,
    lay: &Layout,
    need_error_stub: bool,
    need_table: bool,
)
    requires
        need_error_stub == has_ret(instructions@),
        need_table == needs_table(instructions@),
        first_failure(*cg, *ctx, instructions@, instructions@.len()) is None,
        within_reach(*cg, *ctx, instructions@),
        old(code)@.len() == body_end(*cg, *ctx, instructions@),
        lay.targets() == resolved(*cg, *ctx, instructions@),
        lay.offsets@.len() == instructions@.len(),
        lay.epilogue == epilogue_at(*cg, *ctx, instructions@),
        addressable(*cg, *ctx),
        table_addressable(*cg, *ctx, instructions@),
    ensures
        final(code)@ == old(code)@ + (if closing_jump(instructions@) {
            seq![0xE9u8] + rel32(body_end(*cg, *ctx, instructions@) + 1, epilogue_at(*cg, *ctx, instructions@))
        } else {
            Seq::empty()
        }) + (if has_ret(instructions@) {
            error_stub(*ctx)
        } else {
            Seq::empty()
        }) + epilogue() + Seq::new(padding(*cg, *ctx, instructions@), |k: int| 0x90u8) + (
        if needs_table(instructions@) {
            table(*cg, *ctx, instructions@, instructions@.len())
        } else {
            Seq::empty()
        }),
{
    let ghost program = instructions@;
    let epilogue = lay.epilogue;

    // A program with `RET` has the error stub right after its last
    // instruction: a trailing jump to the epilogue keeps a fall-through off
    // it (running past the end exits silently). `jmp rel32`
    if closes(instructions, need_error_stub) {
        emit(code, &[0xE9]);
        let pos = code.len();
        emit(code, &rel32_field(pos, epilogue));
    }

    // The error stub: `RET` on an empty call stack reports the failure and
    // falls through to the epilogue. `status` is a `u64`, so both halves
    // are written: `mov dword [<status>], EMPTY_CALL_STACK`,
    // `mov dword [<status + 4>], 0`.
    if need_error_stub {
        emit(code, &[0xC7, 0x05]);
        emit_u32(code, addr32(ctx.out));
        emit_u32(code, VmcallOut::EMPTY_CALL_STACK as u32);
        emit(code, &[0xC7, 0x05]);
        emit_u32(code, addr32(ctx.out + 4));
        emit_u32(code, 0);
    }

    // The epilogue restores the callee-saved registers and returns; jumps
    // out of range land here. `add esp, 16`, `pop edi`, `pop esi`,
    // `pop ebx`, `ret`
    emit(code, &[0x83, 0xC4, 0x10, 0x5F, 0x5E, 0x5B, 0xC3]);
    let ghost ended_code = code@;
    assert(ended_code.len() == epilogue + 7);

    // The address table follows, 4-byte aligned (the padding `nop`s never
    // run).
    if need_table {
        let pad: usize = (4 - (epilogue + 7) % 4) % 4;
        let table_start: usize = epilogue + 7 + pad;
        while code.len() % 4 != 0
            invariant
                code@.len() <= table_start,
                epilogue + 7 <= code@.len(),
                table_start == epilogue + 7 + pad,
                pad == (4 - (epilogue + 7) % 4) % 4,
                code@ == ended_code + Seq::new((code@.len() - (epilogue + 7)) as nat, |k: int| 0x90u8),
                ended_code.len() == epilogue + 7,
            decreases table_start - code@.len(),
        {
            code.push(0x90);
            assert(code@ =~= ended_code + Seq::new((code@.len() - (epilogue + 7)) as nat, |k: int| 0x90u8));
        }
        assert(code@.len() == table_start);
        emit_table(cg, code, instructions, ctx, lay);
    }
    proof {
        if !need_table {
            assert(Seq::new(padding(*cg, *ctx, program), |k: int| 0x90u8) =~= Seq::<u8>::empty());
        }
    }
}

impl JITCodegen {
    /// Generates the 32-bit x86 machine code of a program (see
    /// [`generated`]) and whether it reports into the status cell; the error
    /// of the first instruction that cannot be lowered, if any.
    pub fn generate_x86(&mut self, instructions: &[Instruction], ctx: &GenContext) -> (r: Result<GeneratedCode, VMError>)
        requires
            !(first_failure(*old(self), *ctx, instructions@, instructions@.len()) matches Some(Lowering::Panic)),
            within_reach(*old(self), *ctx, instructions@),
            addressable(*old(self), *ctx),
            first_failure(*old(self), *ctx, instructions@, instructions@.len()) is None ==> table_addressable(
                *old(self),
                *ctx,
                instructions@,
            ),
        ensures
            *final(self) == *old(self),
            match first_failure(*old(self), *ctx, instructions@, instructions@.len()) {
                Some(Lowering::Error(e)) => r matches Err(x) && x.kind == e,
                _ => r matches Ok(g) && g.bytes@ == generated(*old(self), *ctx, instructions@)
                    && g.has_status == (has_ret(instructions@) || has_vmcall(instructions@)
                    || has_division(instructions@)),
            },
    {
        // Pre-scan: dynamic control flow needs the address table after the
        // code; `RET` additionally needs the error stub. Any `RET`,
        // `VMCALL` or division means execution can report into the out
        // block.
        let (need_error_stub, any_dynamic, any_vmcall, any_division) = scan(instructions);
        let need_table = need_error_stub || any_dynamic;
        let has_status = need_error_stub || any_vmcall || any_division;

        // Pass 1: where each instruction starts.
        let (offsets, end) = match measure(self, instructions, ctx) {
            Ok(measured) => measured,
            Err(e) => {
                return Err(e);
            },
        };
        let lay = place(self, instructions, ctx, offsets, end, need_error_stub, need_table);

        // Pass 2: the prologue and every instruction in place, with its
        // targets resolved; then what follows them.
        let mut machine_code = emit_body(self, instructions, ctx, &lay);
        emit_tail(self, &mut machine_code, instructions, ctx, &lay, need_error_stub, need_table);
        assert(machine_code@ =~= generated(*self, *ctx, instructions@));
        Ok(GeneratedCode { bytes: machine_code, has_status })
    }

    /// Whether [`JITCodegen::generate_x86`] takes the program: the first
    /// instruction that cannot be lowered, if any, is an error rather than a
    /// panic, the code stays within [`REACH`], and the addresses it embeds
    /// are 32-bit addresses.
    #[verifier::rlimit(80)]
    pub fn can_generate_x86(&self, instructions: &[Instruction], ctx: &GenContext) -> (r: bool)
        ensures
            r == (!(first_failure(*self, *ctx, instructions@, instructions@.len()) matches Some(
                Lowering::Panic,
            )) && within_reach(*self, *ctx, instructions@) && addressable(*self, *ctx) && (
            first_failure(*self, *ctx, instructions@, instructions@.len()) is None ==> table_addressable(
                *self,
                *ctx,
                instructions@,
            ))),
    {
        let limit: u64 = 0x1_0000_0000;
        if self.registers_address() > limit - 8 * 255 || self.call_stack_address() >= limit
            || ctx.wvm >= limit || ctx.out >= limit - 4 || ctx.membase_addr >= limit
            || ctx.scratch_addr >= limit || ctx.call_push >= limit || ctx.call_pop >= limit
            || ctx.vmcall >= limit || ctx.sdiv >= limit || ctx.udiv >= limit || ctx.srem >= limit
            || ctx.urem >= limit {
            return false;
        }
        let n = instructions.len();
        let ghost program = instructions@;
        let blank_layout = Layout { offsets: Vec::new(), epilogue: 0, error_stub: 0, table_base: 0, table_len: 0 };
        assert(blank_layout.offsets@.map_values(|o: usize| o as int) =~= Seq::<int>::empty());
        assert(blank_layout.targets() =~= blank());
        // Where the next instruction starts, as the first pass measures it.
        let mut size: usize = 6;
        let mut k: usize = 0;
        while k < n
            invariant
                n == program.len(),
                program == instructions@,
                k <= n,
                addressable(*self, *ctx),
                blank_layout.targets() == blank(),
                blank_layout.bounded(),
                narrow(&blank_layout),
                first_failure(*self, *ctx, program, k as nat) is None,
                size == start_of(*self, *ctx, program, k as nat),
                size <= REACH,
            decreases n - k,
        {
            let outcome = self.lowering_outcome(&instructions[k], ctx);
            proof {
                lemma_same_outcome(*self, *ctx, program[k as int], 0);
                lemma_lower_shape(*self, *ctx, program[k as int], k as int, 0, blank());
                lemma_lower_shape(*self, *ctx, program[k as int], 0, 0, blank());
                assert(((k + 1) - 1) as nat == k as nat);
                if outcome is Some {
                    lemma_first_failure_stays(*self, *ctx, program, (k + 1) as nat, n as nat);
                }
            }
            match outcome {
                Some(panics) => {
                    proof {
                        let l = lower(*self, *ctx, program[k as int], k as int, 0, blank());
                        assert(first_failure(*self, *ctx, program, (k + 1) as nat) == Some(l));
                        assert(panics == (l is Panic));
                        assert forall|j: nat|
                            j <= program.len() && #[trigger] first_failure(*self, *ctx, program, j)
                                is None implies start_of(*self, *ctx, program, j) <= REACH by {
                            if j > k {
                                lemma_first_failure_stays(*self, *ctx, program, (k + 1) as nat, j);
                            } else {
                                lemma_starts(*self, *ctx, program, j, k as nat);
                            }
                        }
                        lemma_first_failure_stays(*self, *ctx, program, (k + 1) as nat, n as nat);
                    }
                    return !panics;
                },
                None => {},
            }
            // The length of its bytes, lowered on their own.
            let mut piece: Vec<u8> = Vec::new();
            let _ = lower_instruction(self, &instructions[k], 0, ctx, &blank_layout, &mut piece);
            let next = size + piece.len();
            if next > REACH {
                proof {
                    assert(first_failure(*self, *ctx, program, (k + 1) as nat) is None);
                }
                return false;
            }
            size = next;
            k = k + 1;
        }
        // Where the code ends: the closing jump, the error stub, the
        // epilogue, and the aligned address table.
        let (need_error_stub, any_dynamic, _, _) = scan(instructions);
        let need_table = need_error_stub || any_dynamic;
        let stub: usize = if closes(instructions, need_error_stub) { size + 5 } else { size };
        let epilogue: usize = if need_error_stub { stub + 20 } else { stub };
        proof {
            assert forall|j: nat|
                j <= program.len() && #[trigger] first_failure(*self, *ctx, program, j) is None implies start_of(
                    *self,
                    *ctx,
                    program,
                    j,
                ) <= REACH by {
                lemma_starts(*self, *ctx, program, j, n as nat);
            }
        }
        if !need_table {
            return epilogue + 7 <= REACH;
        }
        if n > REACH {
            return false;
        }
        let table_start: usize = epilogue + 7 + (4 - (epilogue + 7) % 4) % 4;
        assert(table_start == table_at(*self, *ctx, instructions@));
        (table_start as u64) + 4 * (n as u64) <= REACH as u64 && (table_start as u64) < limit && ctx.code_base < limit
            - table_start as u64
    }
}

} // verus!
