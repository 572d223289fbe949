//! # The meaning of W8 programs
//!
//! What one instruction does to the state of the machine, and what running
//! a program for a number of steps does. The interpreter is proved to follow
//! these definitions.
//!
//! An operand is read through its *slot*: a register operand reads the
//! register, an immediate reads its value and an absent operand reads `0`.
use vstd::prelude::*;

use crate::isa::instruction::Instruction;
use crate::isa::opcode::OperationCode;
use crate::isa::operand::{Operand, OperandKind};
use crate::isa::register::Register;
use crate::vm::err::VMErrorKind;

verus! {

/// The state of the machine that instructions read and change.
#[verifier::ext_equal]
pub struct MachineState {
    pub registers: Seq<u64>,
    pub memory: Seq<u8>,
    pub call_stack: Seq<usize>,
    pub exit_code: Option<u64>,
}

/// `2^63`: the sign bit of a 64-bit value.
pub open spec fn sign_bit() -> u64 {
    0x8000_0000_0000_0000
}

/// The two's-complement value of a 64-bit word.
pub open spec fn signed(x: u64) -> int {
    if x < sign_bit() {
        x as int
    } else {
        x - 0x1_0000_0000_0000_0000
    }
}

/// The magnitude of the two's-complement value of a word (`2^63` for the
/// most negative value).
pub open spec fn magnitude(x: u64) -> u64 {
    if x < sign_bit() {
        x
    } else {
        (0x1_0000_0000_0000_0000 - x) as u64
    }
}

/// Two's-complement negation modulo `2^64`.
pub open spec fn negate(x: u64) -> u64 {
    vstd::wrapping::u64_specs::wrapping_sub(0, x)
}

/// Signed division truncated toward zero, modulo `2^64` (`MIN / -1` is
/// `MIN`).
pub open spec fn signed_div(l: u64, r: u64) -> u64 {
    let q = magnitude(l) / magnitude(r);
    if (l >= sign_bit()) != (r >= sign_bit()) {
        negate(q)
    } else {
        q
    }
}

/// The remainder of [`signed_div`]: it has the sign of the dividend
/// (`MIN % -1` is `0`).
pub open spec fn signed_rem(l: u64, r: u64) -> u64 {
    let m = magnitude(l) % magnitude(r);
    if l >= sign_bit() {
        negate(m)
    } else {
        m
    }
}

/// Arithmetic shift right by `s < 64`: the sign bit is copied in.
pub open spec fn arithmetic_shr(l: u64, s: u64) -> u64 {
    if l < sign_bit() {
        l >> s
    } else {
        !((!l) >> s)
    }
}

/// `1` for true, `0` for false.
pub open spec fn flag(b: bool) -> u64 {
    if b {
        1
    } else {
        0
    }
}

/// The result of an integer operation with two sources.
pub open spec fn int_binary(op: OperationCode, l: u64, r: u64) -> u64 {
    match op {
        OperationCode::IADD => vstd::wrapping::u64_specs::wrapping_add(l, r),
        OperationCode::ISUB => vstd::wrapping::u64_specs::wrapping_sub(l, r),
        OperationCode::IMUL => vstd::wrapping::u64_specs::wrapping_mul(l, r),
        OperationCode::AND => l & r,
        OperationCode::OR => l | r,
        OperationCode::XOR => l ^ r,
        OperationCode::LSL => l << (r % 64),
        OperationCode::LSR => l >> (r % 64),
        OperationCode::SAR => arithmetic_shr(l, r % 64),
        OperationCode::IEQ => flag(l == r),
        OperationCode::INE => flag(l != r),
        OperationCode::SLT => flag(signed(l) < signed(r)),
        OperationCode::SLE => flag(signed(l) <= signed(r)),
        OperationCode::SGT => flag(signed(l) > signed(r)),
        OperationCode::SGE => flag(signed(l) >= signed(r)),
        OperationCode::ULT => flag(l < r),
        OperationCode::ULE => flag(l <= r),
        OperationCode::UGT => flag(l > r),
        OperationCode::UGE => flag(l >= r),
        _ => 0,
    }
}

/// The result of a division or remainder by `r != 0`.
pub open spec fn division(op: OperationCode, l: u64, r: u64) -> u64 {
    match op {
        OperationCode::SDIV => signed_div(l, r),
        OperationCode::UDIV => l / r,
        OperationCode::SREM => signed_rem(l, r),
        OperationCode::UREM => l % r,
        _ => 0,
    }
}

/// The result of an integer operation with one source.
pub open spec fn int_unary(op: OperationCode, v: u64) -> u64 {
    match op {
        OperationCode::INEG => negate(v),
        _ => !v,
    }
}

/// The families of opcodes that share a shape of operands and behaviour.
#[derive(Debug, Clone, Copy, PartialEq, Eq, Structural)]
pub enum Shape {
    Nop,
    Move,
    Load,
    Store,
    IntBinary,
    Division,
    IntUnary,
    FloatBinary,
    FloatUnary,
    Jump,
    JumpIf,
    Call,
    Ret,
    VmCall,
}

/// The family of an opcode.
pub open spec fn shape(op: OperationCode) -> Shape {
    match op {
        OperationCode::NOP => Shape::Nop,
        OperationCode::MOVE => Shape::Move,
        OperationCode::LOAD8 | OperationCode::LOAD16 | OperationCode::LOAD32
        | OperationCode::LOAD64 => Shape::Load,
        OperationCode::STORE8 | OperationCode::STORE16 | OperationCode::STORE32
        | OperationCode::STORE64 => Shape::Store,
        OperationCode::SDIV | OperationCode::UDIV | OperationCode::SREM
        | OperationCode::UREM => Shape::Division,
        OperationCode::INEG | OperationCode::NOT => Shape::IntUnary,
        OperationCode::FADD | OperationCode::FSUB | OperationCode::FMUL | OperationCode::FDIV
        | OperationCode::FREM | OperationCode::FEQ | OperationCode::FNE | OperationCode::FLT
        | OperationCode::FLE | OperationCode::FGT | OperationCode::FGE => Shape::FloatBinary,
        OperationCode::FNEG => Shape::FloatUnary,
        OperationCode::JMP => Shape::Jump,
        OperationCode::JZ | OperationCode::JNZ => Shape::JumpIf,
        OperationCode::CALL => Shape::Call,
        OperationCode::RET => Shape::Ret,
        OperationCode::VMCALL => Shape::VmCall,
        _ => Shape::IntBinary,
    }
}

/// The number of bytes that a `LOAD*` or `STORE*` accesses.
pub open spec fn access_width(op: OperationCode) -> nat {
    match op {
        OperationCode::LOAD8 | OperationCode::STORE8 => 1,
        OperationCode::LOAD16 | OperationCode::STORE16 => 2,
        OperationCode::LOAD32 | OperationCode::STORE32 => 4,
        _ => 8,
    }
}

/// Whether the operand is a register.
pub open spec fn is_register(o: Option<Operand>) -> bool {
    o matches Some(Operand { kind: OperandKind::Register(_) })
}

/// The number that an operand occupies in its slot: the register number, the
/// immediate, or `0` when the operand is absent.
pub open spec fn flatten(o: Option<Operand>) -> u64 {
    match o {
        Some(Operand { kind: OperandKind::Register(r) }) => r.0 as u64,
        Some(Operand { kind: OperandKind::Immediate(v) }) => v,
        None => 0,
    }
}

/// The operand kinds of an instruction: one bit per operand, set for a
/// register.
pub open spec fn kinds(i: Instruction) -> u64 {
    ((if is_register(i.operand1) { 1u64 } else { 0u64 }) + (if is_register(i.operand2) {
        2u64
    } else {
        0u64
    }) + (if is_register(i.operand3) { 4u64 } else { 0u64 })) as u64
}

/// Whether the operand kinds `k` are a signature that the opcode accepts
/// (destinations are registers).
pub open spec fn valid_signature(op: OperationCode, k: u64) -> bool {
    match shape(op) {
        Shape::Nop | Shape::Ret => k == 0,
        Shape::Jump | Shape::Call => k < 2,
        Shape::Move | Shape::Load | Shape::IntUnary | Shape::FloatUnary => k == 1 || k == 3,
        Shape::Store | Shape::JumpIf => k < 4,
        Shape::VmCall => k < 8,
        _ => k < 8 && k % 2 == 1,
    }
}

/// The value that reading an operand's slot gives.
pub open spec fn slot_value(s: MachineState, o: Option<Operand>) -> u64 {
    if is_register(o) {
        s.registers[flatten(o) as int]
    } else {
        flatten(o)
    }
}

/// The destination register of an instruction (its first slot).
pub open spec fn destination(i: Instruction) -> Register {
    Register(flatten(i.operand1) as u8)
}

/// `s` with register `r` set to `v`.
pub open spec fn with_register(s: MachineState, r: Register, v: u64) -> MachineState {
    MachineState { registers: s.registers.update(r.0 as int, v), ..s }
}

/// The value that a `LOAD*` of `width` bytes at `address` reads, if the
/// bytes lie within the memory.
pub open spec fn load(memory: Seq<u8>, address: int, width: nat) -> Option<u64> {
    if !crate::vm::memory::in_bounds(memory.len(), address, width as int) {
        None
    } else if width == 1 {
        Some(memory[address] as u64)
    } else if width == 2 {
        Some(crate::bytes::le_u16(memory, address) as u64)
    } else if width == 4 {
        Some(crate::bytes::le_u32(memory, address) as u64)
    } else {
        Some(crate::bytes::le_u64(memory, address))
    }
}

/// The little-endian bytes that a `STORE*` of `width` bytes writes for `v`
/// (its low bytes).
pub open spec fn store_bytes(v: u64, width: nat) -> Seq<u8> {
    if width == 1 {
        seq![v as u8]
    } else if width == 2 {
        crate::bytes::u16_le_bytes(v as u16)
    } else if width == 4 {
        crate::bytes::u32_le_bytes(v as u32)
    } else {
        crate::bytes::u64_le_bytes(v)
    }
}

/// The error of an access at `address` outside a memory of `len` bytes.
pub open spec fn bad_address(address: usize, len: nat) -> VMErrorKind {
    VMErrorKind::InvalidAddress { got: address, memory_length: len as usize }
}

/// What executing one instruction does.
pub enum Step {
    /// Execution goes on at `ip` in the new state.
    Next { ip: int, state: MachineState },
    /// The instruction fails; the state is unchanged.
    Trap { error: VMErrorKind },
    /// A `VMCALL` asks the host for a service; its block of arguments
    /// `address..address + size` lies within the memory.
    Host { service: u64, address: usize, size: usize },
    /// A floating-point operation, which the caller computes: its result
    /// goes into `dst` and execution goes on with the next instruction.
    Float { op: OperationCode, dst: Register, lhs: u64, rhs: u64 },
    /// The operand kinds are a signature that the opcode does not have.
    InvalidSignature,
}

/// What an instruction of opcode `op` does when its destination is `dst`
/// and its slots read `v1`, `v2` and `v3`; `host` tells whether a host
/// serves `VMCALL`.
pub open spec fn step_values(
    op: OperationCode,
    dst: Register,
    v1: u64,
    v2: u64,
    v3: u64,
    ip: int,
    s: MachineState,
    host: bool,
) -> Step {
    let next = ip + 1;
    match shape(op) {
        Shape::Nop => Step::Next { ip: next, state: s },
        Shape::Move => Step::Next { ip: next, state: with_register(s, dst, v2) },
        Shape::Load => match load(s.memory, (v2 as usize) as int, access_width(op)) {
            Some(v) => Step::Next { ip: next, state: with_register(s, dst, v) },
            None => Step::Trap { error: bad_address(v2 as usize, s.memory.len()) },
        },
        Shape::Store => {
            let address = (v1 as usize) as int;
            let width = access_width(op);
            if crate::vm::memory::in_bounds(s.memory.len(), address, width as int) {
                Step::Next {
                    ip: next,
                    state: MachineState {
                        memory: crate::vm::memory::spliced(s.memory, address, store_bytes(v2, width)),
                        ..s
                    },
                }
            } else {
                Step::Trap { error: bad_address(v1 as usize, s.memory.len()) }
            }
        },
        Shape::IntBinary => Step::Next { ip: next, state: with_register(s, dst, int_binary(op, v2, v3)) },
        Shape::Division => if v3 == 0 {
            Step::Trap { error: VMErrorKind::DivisionByZero }
        } else {
            Step::Next { ip: next, state: with_register(s, dst, division(op, v2, v3)) }
        },
        Shape::IntUnary => Step::Next { ip: next, state: with_register(s, dst, int_unary(op, v2)) },
        Shape::FloatBinary => Step::Float { op, dst, lhs: v2, rhs: v3 },
        Shape::FloatUnary => Step::Float { op, dst, lhs: v2, rhs: 0 },
        Shape::Jump => Step::Next { ip: (v1 as usize) as int, state: s },
        Shape::JumpIf => {
            let taken = if op == OperationCode::JZ { v1 == 0 } else { v1 != 0 };
            if taken {
                Step::Next { ip: (v2 as usize) as int, state: s }
            } else {
                Step::Next { ip: next, state: s }
            }
        },
        Shape::Call => Step::Next {
            ip: (v1 as usize) as int,
            state: MachineState { call_stack: s.call_stack.push(next as usize), ..s },
        },
        Shape::Ret => if s.call_stack.len() == 0 {
            Step::Trap { error: VMErrorKind::EmptyCallStack }
        } else {
            Step::Next {
                ip: s.call_stack.last() as int,
                state: MachineState { call_stack: s.call_stack.drop_last(), ..s },
            }
        },
        Shape::VmCall => {
            let address = v2 as usize;
            let size = v3 as usize;
            if address + size > s.memory.len() {
                Step::Trap { error: bad_address(address, s.memory.len()) }
            } else if !host {
                Step::Trap { error: VMErrorKind::UnknownVMCallService { service: v1 } }
            } else {
                Step::Host { service: v1, address, size }
            }
        },
    }
}

/// What the instruction `i` at `ip` does in state `s`; `host` tells whether
/// a host serves `VMCALL`.
pub open spec fn step(i: Instruction, ip: int, s: MachineState, host: bool) -> Step {
    if !valid_signature(i.opcode, kinds(i)) {
        Step::InvalidSignature
    } else {
        step_values(
            i.opcode,
            destination(i),
            slot_value(s, i.operand1),
            slot_value(s, i.operand2),
            slot_value(s, i.operand3),
            ip,
            s,
            host,
        )
    }
}

/// Why a run stopped.
pub enum Stop {
    /// Execution left the program (past its end, or by a jump outside it).
    Finished,
    /// The given number of steps ran out.
    OutOfSteps,
    /// An instruction failed.
    Trap { error: VMErrorKind },
    /// A `VMCALL` waits for the host.
    Host { service: u64, address: usize, size: usize },
    /// A floating-point operation waits for its result.
    Float { op: OperationCode, dst: Register, lhs: u64, rhs: u64 },
    /// An instruction with an operand signature its opcode does not have
    /// was reached.
    InvalidSignature,
}

/// Runs `program` from `ip` in state `s` for at most `fuel` steps: why it
/// stopped, the instruction it stopped at (for `Float`, the one after the
/// operation) and the state then.
pub open spec fn run(
    program: Seq<Instruction>,
    ip: int,
    s: MachineState,
    host: bool,
    fuel: nat,
) -> (Stop, int, MachineState)
    decreases fuel,
{
    if !(0 <= ip < program.len()) {
        (Stop::Finished, ip, s)
    } else if fuel == 0 {
        (Stop::OutOfSteps, ip, s)
    } else {
        match step(program[ip], ip, s, host) {
            Step::Next { ip: next, state } => run(program, next, state, host, (fuel - 1) as nat),
            Step::Trap { error } => (Stop::Trap { error }, ip, s),
            Step::Host { service, address, size } => (Stop::Host { service, address, size }, ip, s),
            Step::Float { op, dst, lhs, rhs } => (Stop::Float { op, dst, lhs, rhs }, ip + 1, s),
            Step::InvalidSignature => (Stop::InvalidSignature, ip, s),
        }
    }
}

/// Running for `n` steps and then, if the steps ran out, for `m` more, is
/// running for `n + m` steps; a run that stopped for any other reason
/// within `n` steps stops the same way however many steps it is given.
pub proof fn lemma_run_split(
    program: Seq<Instruction>,
    ip: int,
    s: MachineState,
    host: bool,
    n: nat,
    m: nat,
)
    ensures
        ({
            let (stop, ip1, s1) = run(program, ip, s, host, n);
            &&& stop is OutOfSteps ==> run(program, ip1, s1, host, m) == run(
                program,
                ip,
                s,
                host,
                n + m,
            )
            &&& !(stop is OutOfSteps) ==> run(program, ip, s, host, n + m) == (stop, ip1, s1)
        }),
    decreases n,
{
    if 0 <= ip < program.len() && n > 0 {
        match step(program[ip], ip, s, host) {
            Step::Next { ip: next, state } => {
                lemma_run_split(program, next, state, host, (n - 1) as nat, m);
                assert((n + m - 1) as nat == (n - 1) as nat + m);
            },
            _ => {},
        }
    }
}

/// A `CALL` to `target` followed, at `target`, by a `RET` comes back to the
/// instruction after the `CALL` with the call stack as it was.
pub proof fn lemma_call_then_ret(call: Instruction, ret: Instruction, ip: int, s: MachineState, host: bool)
    requires
        call.opcode == OperationCode::CALL,
        call.operand1 matches Some(Operand { kind: OperandKind::Immediate(_) }),
        call.operand2 is None,
        call.operand3 is None,
        ret.opcode == OperationCode::RET,
        ret.operand1 is None,
        ret.operand2 is None,
        ret.operand3 is None,
        0 <= ip < usize::MAX,
    ensures
        ({
            let target = (flatten(call.operand1) as usize) as int;
            &&& step(call, ip, s, host) matches Step::Next { ip: t, state: s1 } && t == target
                && step(ret, t, s1, host) == (Step::Next { ip: ip + 1, state: s })
        }),
{
    let target = (flatten(call.operand1) as usize) as int;
    assert(kinds(call) == 0);
    assert(kinds(ret) == 0);
    let s1 = MachineState { call_stack: s.call_stack.push((ip + 1) as usize), ..s };
    assert(step(call, ip, s, host) == Step::Next { ip: target, state: s1 });
    assert(s1.call_stack.drop_last() =~= s.call_stack);
    assert(MachineState { call_stack: s1.call_stack.drop_last(), ..s1 } == s);
}

// ====== What the integer operations mean ======

/// The signed comparisons compare the two's-complement values of their
/// operands, as `i64`s: `-1 <= 0`, and `2^63` is the least value.
pub proof fn lemma_signed_order(l: u64, r: u64)
    ensures
        int_binary(OperationCode::SLT, l, r) == flag((l as i64) < (r as i64)),
        int_binary(OperationCode::SLE, l, r) == flag((l as i64) <= (r as i64)),
        int_binary(OperationCode::SGT, l, r) == flag((l as i64) > (r as i64)),
        int_binary(OperationCode::SGE, l, r) == flag((l as i64) >= (r as i64)),
{
    assert((l as i64) < (r as i64) <==> (if (l >= 0x8000_0000_0000_0000u64) != (r
        >= 0x8000_0000_0000_0000u64) {
        l >= 0x8000_0000_0000_0000u64
    } else {
        l < r
    })) by (bit_vector);
    assert((l as i64) <= (r as i64) <==> (if (l >= 0x8000_0000_0000_0000u64) != (r
        >= 0x8000_0000_0000_0000u64) {
        l >= 0x8000_0000_0000_0000u64
    } else {
        l <= r
    })) by (bit_vector);
    assert((l as i64) > (r as i64) <==> (r as i64) < (l as i64)) by (bit_vector);
    assert((l as i64) >= (r as i64) <==> (r as i64) <= (l as i64)) by (bit_vector);
    assert((r as i64) < (l as i64) <==> (if (l >= 0x8000_0000_0000_0000u64) != (r
        >= 0x8000_0000_0000_0000u64) {
        r >= 0x8000_0000_0000_0000u64
    } else {
        r < l
    })) by (bit_vector);
    assert((r as i64) <= (l as i64) <==> (if (l >= 0x8000_0000_0000_0000u64) != (r
        >= 0x8000_0000_0000_0000u64) {
        r >= 0x8000_0000_0000_0000u64
    } else {
        r <= l
    })) by (bit_vector);
}

/// The arithmetic shift moves the bits of the `i64` value of its first
/// operand right by the low six bits of the second, copying the sign bit in:
/// it is `>>` on `i64`.
pub proof fn lemma_arithmetic_shift(l: u64, r: u64)
    ensures
        int_binary(OperationCode::SAR, l, r) == ((l as i64) >> (r % 64)) as u64,
        int_binary(OperationCode::SAR, l, r) >= 0x8000_0000_0000_0000u64 <==> l
            >= 0x8000_0000_0000_0000u64,
{
    let s = r % 64;
    assert(s < 64);
    assert(l < 0x8000_0000_0000_0000u64 ==> ((l as i64) >> s) as u64 == l >> s) by (bit_vector)
        requires
            s < 64,
    ;
    assert(l >= 0x8000_0000_0000_0000u64 ==> ((l as i64) >> s) as u64 == !((!l) >> s))
        by (bit_vector)
        requires
            s < 64,
    ;
    assert(l < 0x8000_0000_0000_0000u64 ==> l >> s < 0x8000_0000_0000_0000u64) by (bit_vector);
    assert(l >= 0x8000_0000_0000_0000u64 ==> !((!l) >> s) >= 0x8000_0000_0000_0000u64)
        by (bit_vector);
}

/// The two's-complement value of the negation of `0 <= x <= 2^63` is `-x`.
proof fn lemma_negate_value(x: u64)
    requires
        x <= sign_bit(),
    ensures
        signed(negate(x)) == -x,
{
}

/// The magnitude of a word is the absolute value of its two's-complement
/// value.
proof fn lemma_magnitude_value(x: u64)
    ensures
        magnitude(x) as int == if signed(x) < 0 {
            -signed(x)
        } else {
            signed(x)
        },
        magnitude(x) <= sign_bit(),
{
}

/// Signed division truncates toward zero and the remainder has the sign of
/// the dividend: for a divisor `r != 0` (and not `MIN / -1`, whose quotient
/// wraps), `l == (l / r) * r + l % r` on the `i64` values, with the
/// remainder smaller than the divisor in magnitude and either zero or of
/// the dividend's sign.
pub proof fn lemma_signed_division(l: u64, r: u64)
    requires
        r != 0,
        !(l == sign_bit() && r == 0xFFFF_FFFF_FFFF_FFFFu64),
    ensures
        signed(signed_div(l, r)) * signed(r) + signed(signed_rem(l, r)) == signed(l),
        ({
            let m = signed(signed_rem(l, r));
            let d = signed(r);
            &&& (if m < 0 { -m } else { m }) < (if d < 0 { -d } else { d })
            &&& m == 0 || ((m < 0) == (signed(l) < 0))
        }),
{
    let a = signed(l);
    let b = signed(r);
    let ma = magnitude(l) as int;
    let mb = magnitude(r) as int;
    lemma_magnitude_value(l);
    lemma_magnitude_value(r);
    let q = ma / mb;
    let m = ma % mb;
    assert(mb > 0);
    assert(ma == q * mb + m && 0 <= m < mb) by (nonlinear_arith)
        requires
            mb > 0,
            q == ma / mb,
            m == ma % mb,
    ;
    assert(0 <= q <= ma) by (nonlinear_arith)
        requires
            mb >= 1,
            ma >= 0,
            q == ma / mb,
    ;
    assert(signed_div(l, r) == if (l >= sign_bit()) != (r >= sign_bit()) {
        negate(q as u64)
    } else {
        q as u64
    });
    assert(signed_rem(l, r) == if l >= sign_bit() {
        negate(m as u64)
    } else {
        m as u64
    });
    lemma_negate_value(q as u64);
    lemma_negate_value(m as u64);
    if (l >= sign_bit()) == (r >= sign_bit()) {
        // Same signs: the quotient is below 2^63 (only MIN / -1 reaches it).
        if q == sign_bit() {
            assert(ma == sign_bit()) by (nonlinear_arith)
                requires
                    q == ma / mb,
                    mb >= 1,
                    ma <= 0x8000_0000_0000_0000,
                    q == 0x8000_0000_0000_0000,
            ;
            assert(mb == 1) by (nonlinear_arith)
                requires
                    q == ma / mb,
                    mb >= 1,
                    ma == 0x8000_0000_0000_0000,
                    q == 0x8000_0000_0000_0000,
            ;
        }
        assert(q < sign_bit());
        assert(signed(q as u64) == q);
    }
    if a >= 0 && b > 0 {
        assert(q * b + m == a) by (nonlinear_arith)
            requires
                ma == q * mb + m,
                b == mb,
                a == ma,
        ;
    } else if a >= 0 {
        assert((-q) * b + m == a) by (nonlinear_arith)
            requires
                ma == q * mb + m,
                b == -mb,
                a == ma,
        ;
    } else if b > 0 {
        assert((-q) * b + (-m) == a) by (nonlinear_arith)
            requires
                ma == q * mb + m,
                b == mb,
                a == -ma,
        ;
    } else {
        assert(q * b + (-m) == a) by (nonlinear_arith)
            requires
                ma == q * mb + m,
                b == -mb,
                a == -ma,
        ;
    }
}

} // verus!
