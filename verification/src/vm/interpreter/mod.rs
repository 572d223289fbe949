//! # The W8 interpreter
//!
//! The program is encoded **once** into a flat array of `u64`: four slots
//! per instruction. Slot 0 is the header, `opcode * 8 + operand kinds` (one
//! bit per operand, set for a register), which is also the index of the
//! instruction's handler in the jump table. Each operand is flattened into a
//! number: a register into its number, an immediate as is, a missing operand
//! into `0`. The operand count, the operand types that must be registers and
//! the register numbers are checked once, by the encoding.
//!
//! Execution runs in pieces: [`WVM::resume`] runs at most a given number of
//! instructions and stops early where the caller has work to do: a `VMCALL`
//! for the host (answered with [`WVM::finish_host_call`]) or a
//! floating-point operation.
pub mod handlers;
pub mod jumptable;

use vstd::prelude::*;

use crate::isa::instruction::Instruction;
use crate::isa::opcode::OperationCode;
use crate::isa::operand::{Operand, OperandKind};
use crate::isa::register::Register;
use crate::vm::err::{VMError, VMErrorKind};
use crate::vm::interpreter::jumptable::build_jump_table;
use crate::vm::semantics::{MachineState, Shape, Stop};
use crate::vm::{VMCallDecision, WVM};

verus! {

/// How many slots one instruction occupies in the encoded program.
pub const SLOTS: usize = 4;

/// The number of W8 opcodes.
pub const OPCODE_COUNT: usize = 53;

/// The number of entries in the jump table: 8 signatures per opcode.
pub const TABLE_LEN: usize = 424;

/// Where execution goes after an instruction.
#[derive(Debug)]
pub enum Flow {
    /// On to the instruction at this index.
    Next(usize),
    /// A `VMCALL` for the host, with its block of arguments.
    Host { service: u64, address: usize, size: usize },
    /// A floating-point operation for the caller to compute.
    Float { op: OperationCode, dst: Register, lhs: u64, rhs: u64 },
    /// The instruction's operand kinds are not a signature of its opcode.
    InvalidSignature,
}

/// The result of a handler.
pub type HandlerResult = Result<Flow, VMError>;

/// Why [`WVM::resume`] returned.
#[derive(Debug, PartialEq, Eq, Structural)]
pub enum Suspension {
    /// The program ended: execution left it, or a host ended it.
    Finished,
    /// The given number of instructions ran; call `resume` again.
    OutOfSteps,
    /// A `VMCALL` waits for the host: serve it, then call
    /// [`WVM::finish_host_call`]. The block `address..address + size` lies
    /// within the memory.
    Host { service: u64, address: usize, size: usize },
    /// A floating-point operation waits: write the bits of its result into
    /// `dst`, then call `resume` again. `lhs` and `rhs` are the bits of the
    /// sources (`rhs` is `0` for `FNEG`).
    Float { op: OperationCode, dst: Register, lhs: u64, rhs: u64 },
    /// An instruction whose operand kinds are not a signature of its opcode
    /// was reached.
    InvalidSignature,
}

/// The slot `n` of the instruction whose header is at `base`.
pub fn slot(code: &[u64], base: usize, n: usize) -> (r: u64)
    requires
        base + n < code@.len(),
    ensures
        r == code@[base + n],
{
    let _len = code.len();
    code[base + n]
}

/// The value of the register whose number is the low byte of slot `n`.
pub fn read_reg(vm: &WVM, code: &[u64], base: usize, n: usize) -> (r: u64)
    requires
        base + n < code@.len(),
        (code@[base + n] as u8) < 255,
    ensures
        r == vm.registers@[(code@[base + n] as u8) as int],
{
    vm.registers.get(Register(slot(code, base, n) as u8))
}

/// The immediate in slot `n`.
pub fn read_imm(code: &[u64], base: usize, n: usize) -> (r: u64)
    requires
        base + n < code@.len(),
    ensures
        r == code@[base + n],
{
    slot(code, base, n)
}

// ====== The encoding ======

/// The expected operand count of an opcode, and whether its first operand
/// must be a register.
pub open spec fn pattern_of(op: OperationCode) -> (u8, bool) {
    match crate::vm::semantics::shape(op) {
        Shape::Nop | Shape::Ret => (0, false),
        Shape::Jump | Shape::Call => (1, false),
        Shape::JumpIf | Shape::Store => (2, false),
        Shape::Move | Shape::Load | Shape::IntUnary | Shape::FloatUnary => (2, true),
        Shape::VmCall => (3, false),
        _ => (3, true),
    }
}

/// Whether the operand is a register outside 0-254.
pub open spec fn bad_register(o: Option<Operand>) -> bool {
    o matches Some(Operand { kind: OperandKind::Register(r) }) && r.0 > 254
}

/// Why the encoding rejects an instruction, if it does.
pub open spec fn validation_error(i: Instruction) -> Option<VMErrorKind> {
    let (expected, first_is_register) = pattern_of(i.opcode);
    if i.count() != expected as nat {
        Some(VMErrorKind::IncorrectNumberOfOperands { expected, got: i.count() as u8 })
    } else if first_is_register && !crate::vm::semantics::is_register(i.operand1) {
        Some(
            VMErrorKind::IncorrectTypeOfOperand {
                expected: OperandKind::Register(Register(0)),
                got: match i.operand1 {
                    Some(o) => o.kind,
                    None => OperandKind::Immediate(0),
                },
            },
        )
    } else if bad_register(i.operand1) {
        Some(VMErrorKind::InvalidRegister { got: crate::vm::semantics::flatten(i.operand1) as u8 })
    } else if bad_register(i.operand2) {
        Some(VMErrorKind::InvalidRegister { got: crate::vm::semantics::flatten(i.operand2) as u8 })
    } else if bad_register(i.operand3) {
        Some(VMErrorKind::InvalidRegister { got: crate::vm::semantics::flatten(i.operand3) as u8 })
    } else {
        None
    }
}

/// The first error among the first `n` instructions of `program`.
pub open spec fn first_error(program: Seq<Instruction>, n: nat) -> Option<VMErrorKind>
    decreases n,
{
    if n == 0 {
        None
    } else {
        match first_error(program, (n - 1) as nat) {
            Some(e) => Some(e),
            None => validation_error(program[n - 1]),
        }
    }
}

/// The header of an instruction: `opcode * 8 + operand kinds`.
pub open spec fn header_of(i: Instruction) -> u64 {
    (crate::isa::opcode::opcode_byte(i.opcode) * 8 + crate::vm::semantics::kinds(i)) as u64
}

/// Slot `k` (0-3) of an encoded instruction.
pub open spec fn encoded_slot(i: Instruction, k: int) -> u64 {
    if k == 0 {
        header_of(i)
    } else if k == 1 {
        crate::vm::semantics::flatten(i.operand1)
    } else if k == 2 {
        crate::vm::semantics::flatten(i.operand2)
    } else {
        crate::vm::semantics::flatten(i.operand3)
    }
}

/// The encoded program: four slots per instruction.
pub open spec fn encoding(program: Seq<Instruction>) -> Seq<u64> {
    Seq::new(4 * program.len(), |j: int| encoded_slot(program[j / 4], j % 4))
}

/// The expected operand count of an opcode and whether its first operand
/// must be a register.
fn operand_pattern(opcode: OperationCode) -> (r: (u8, bool))
    ensures
        r == pattern_of(opcode),
{
    match jumptable::shape_of(opcode) {
        Shape::Nop | Shape::Ret => (0, false),
        Shape::Jump | Shape::Call => (1, false),
        Shape::JumpIf | Shape::Store => (2, false),
        Shape::Move | Shape::Load | Shape::IntUnary | Shape::FloatUnary => (2, true),
        Shape::VmCall => (3, false),
        _ => (3, true),
    }
}

/// Whether the operand is a register.
fn is_register(operand: &Option<Operand>) -> (r: bool)
    ensures
        r == crate::vm::semantics::is_register(*operand),
{
    match operand {
        Some(Operand { kind: OperandKind::Register(_) }) => true,
        _ => false,
    }
}

/// Flattens an operand into a number.
fn flatten(operand: Option<Operand>) -> (r: u64)
    ensures
        r == crate::vm::semantics::flatten(operand),
{
    match operand {
        Some(Operand { kind: OperandKind::Register(r) }) => r.0 as u64,
        Some(Operand { kind: OperandKind::Immediate(v) }) => v,
        None => 0,
    }
}

/// The register number of a register operand outside 0-254, if any.
fn bad_register_number(operand: &Option<Operand>) -> (r: Option<u8>)
    ensures
        r is Some <==> bad_register(*operand),
        r matches Some(n) ==> n == crate::vm::semantics::flatten(*operand) as u8,
{
    match operand {
        Some(Operand { kind: OperandKind::Register(register) }) => if register.0 > Register::MAX_INDEX {
            Some(register.0)
        } else {
            None
        },
        _ => None,
    }
}

/// Checks one instruction as the encoding does.
fn validate(instr: &Instruction) -> (r: Result<(), VMError>)
    ensures
        match validation_error(*instr) {
            Some(e) => r matches Err(x) && x.kind == e,
            None => r is Ok,
        },
{
    let count = instr.operand_count();
    let (expected, first_is_register) = operand_pattern(instr.opcode);
    if count != expected as usize {
        return Err(
            VMError::new(VMErrorKind::IncorrectNumberOfOperands { expected, got: count as u8 }),
        );
    }
    if first_is_register && !is_register(&instr.operand1) {
        let got = match instr.operand1 {
            Some(o) => o.kind,
            None => OperandKind::Immediate(0),
        };
        return Err(
            VMError::new(
                VMErrorKind::IncorrectTypeOfOperand {
                    expected: OperandKind::Register(Register(0)),
                    got,
                },
            ),
        );
    }
    if let Some(n) = bad_register_number(&instr.operand1) {
        return Err(VMError::new(VMErrorKind::InvalidRegister { got: n }));
    }
    if let Some(n) = bad_register_number(&instr.operand2) {
        return Err(VMError::new(VMErrorKind::InvalidRegister { got: n }));
    }
    if let Some(n) = bad_register_number(&instr.operand3) {
        return Err(VMError::new(VMErrorKind::InvalidRegister { got: n }));
    }
    Ok(())
}

/// The header of an instruction.
fn header(instr: &Instruction) -> (r: u64)
    ensures
        r == header_of(*instr),
{
    let kinds: u64 = (if is_register(&instr.operand1) { 1u64 } else { 0u64 }) + (if is_register(
        &instr.operand2,
    ) {
        2u64
    } else {
        0u64
    }) + (if is_register(&instr.operand3) { 4u64 } else { 0u64 });
    (instr.opcode.byte() as u64) * 8 + kinds
}

/// Encodes a program into a flat array of `u64`, after checking the operand
/// count, the operands that must be registers and the register numbers of
/// every instruction; the first failed check is the error.
pub fn encode(program: &[Instruction]) -> (r: Result<Vec<u64>, VMError>)
    ensures
        match first_error(program@, program@.len()) {
            Some(e) => r matches Err(x) && x.kind == e,
            None => r matches Ok(code) && code@ == encoding(program@),
        },
{
    let n = program.len();
    let mut code: Vec<u64> = Vec::new();
    let mut i: usize = 0;
    while i < n
        invariant
            n == program@.len(),
            i <= n,
            first_error(program@, i as nat) is None,
            code@ =~= encoding(program@.take(i as int)),
        decreases n - i,
    {
        let instr = &program[i];
        proof {
            assert(((i + 1) - 1) as nat == i as nat);
        }
        match validate(instr) {
            Ok(()) => {},
            Err(e) => {
                proof {
                    lemma_first_error_stays(program@, (i + 1) as nat, n as nat);
                }
                return Err(e);
            },
        }
        let ghost before = code@;
        code.push(header(instr));
        code.push(flatten(instr.operand1));
        code.push(flatten(instr.operand2));
        code.push(flatten(instr.operand3));
        proof {
            let p1 = program@.take(i + 1);
            assert(p1[i as int] == *instr);
            assert forall|j: int| 0 <= j < 4 * (i + 1) implies #[trigger] code@[j] == encoded_slot(
                p1[j / 4],
                j % 4,
            ) by {
                if j < 4 * i {
                    assert(p1[j / 4] == program@.take(i as int)[j / 4]);
                } else {
                    assert(j / 4 == i);
                }
            }
        }
        i = i + 1;
    }
    proof {
        assert(program@.take(n as int) =~= program@);
    }
    Ok(code)
}

// ====== Execution ======

/// A run of a program in progress: the encoded program, the jump table and
/// the index of the next instruction.
pub struct Execution {
    code: Vec<u64>,
    table: Vec<Option<Shape>>,
    count: usize,
    ip: usize,
    host: bool,
    finished: bool,
    program: Ghost<Seq<Instruction>>,
}

impl Execution {
    #[verifier::type_invariant]
    spec fn inv(self) -> bool {
        &&& self.code@ == encoding(self.program@)
        &&& self.count == self.program@.len()
        &&& self.table@.len() == TABLE_LEN
        &&& forall|j: int| 0 <= j < TABLE_LEN ==> #[trigger] self.table@[j] == jumptable::jump_table_at(j)
        &&& forall|j: int| 0 <= j < self.count ==> validation_error(#[trigger] self.program@[j]) is None
    }

    /// The program being run.
    pub closed spec fn program(&self) -> Seq<Instruction> {
        self.program@
    }

    /// The index of the next instruction.
    pub closed spec fn ip(&self) -> int {
        self.ip as int
    }

    /// Whether a host serves `VMCALL`.
    pub closed spec fn host(&self) -> bool {
        self.host
    }

    /// Whether a host has ended the program.
    pub closed spec fn finished(&self) -> bool {
        self.finished
    }

    /// The index of the next instruction.
    pub fn position(&self) -> (r: usize)
        ensures
            r == self.ip(),
    {
        self.ip
    }
}

/// Whether `r` is the suspension that stopping for `stop` gives.
pub open spec fn suspension_for(r: Result<Suspension, VMError>, stop: Stop) -> bool {
    match stop {
        Stop::Finished => r == Ok::<Suspension, VMError>(Suspension::Finished),
        Stop::OutOfSteps => r == Ok::<Suspension, VMError>(Suspension::OutOfSteps),
        Stop::Trap { error } => r matches Err(e) && e.kind == error,
        Stop::Host { service, address, size } => r == Ok::<Suspension, VMError>(
            Suspension::Host { service, address, size },
        ),
        Stop::Float { op, dst, lhs, rhs } => r == Ok::<Suspension, VMError>(
            Suspension::Float { op, dst, lhs, rhs },
        ),
        Stop::InvalidSignature => r == Ok::<Suspension, VMError>(Suspension::InvalidSignature),
    }
}

/// What [`WVM::resume`] does: after a host ended the program nothing
/// happens; otherwise the machine and the run advance exactly as
/// [`crate::vm::semantics::run`] prescribes for `fuel` steps.
pub open spec fn resumed(
    r: Result<Suspension, VMError>,
    before: &WVM,
    after: &WVM,
    e0: Execution,
    e1: Execution,
    fuel: nat,
) -> bool {
    &&& e1.program() == e0.program()
    &&& e1.host() == e0.host()
    &&& e1.finished() == e0.finished()
    &&& after.program == before.program
    &&& after.executeby == before.executeby
    &&& if e0.finished() {
        &&& r == Ok::<Suspension, VMError>(Suspension::Finished)
        &&& after.state() == before.state()
        &&& e1.ip() == e0.ip()
    } else {
        let (stop, ip, state) = crate::vm::semantics::run(
            e0.program(),
            e0.ip(),
            before.state(),
            e0.host(),
            fuel,
        );
        &&& suspension_for(r, stop)
        &&& e1.ip() == ip
        &&& after.state() == state
    }
}

impl WVM {
    /// Starts a run of the program: clears the exit code, then checks and
    /// encodes the program (see [`encode`]). `host` tells whether a host
    /// serves `VMCALL`; without one, a `VMCALL` is an
    /// `UnknownVMCallService` error.
    pub fn start(&mut self, host: bool) -> (r: Result<Execution, VMError>)
        ensures
            final(self).exit_code is None,
            final(self).registers@ == old(self).registers@,
            final(self).memory@ == old(self).memory@,
            final(self).call_stack@ == old(self).call_stack@,
            final(self).program == old(self).program,
            final(self).executeby == old(self).executeby,
            match first_error(old(self).program@, old(self).program@.len()) {
                Some(e) => r matches Err(x) && x.kind == e,
                None => r matches Ok(x) && x.program() == old(self).program@ && x.ip() == 0
                    && x.host() == host && !x.finished(),
            },
    {
        self.exit_code = None;
        let code = match encode(self.program.as_slice()) {
            Ok(code) => code,
            Err(e) => {
                return Err(e);
            },
        };
        let table = build_jump_table();
        let count = self.program.len();
        proof {
            assert forall|j: int| 0 <= j < count implies validation_error(#[trigger] self.program@[j]) is None by {
                lemma_no_error_each(self.program@, count as nat, j);
            }
        }
        Ok(
            Execution {
                code,
                table,
                count,
                ip: 0,
                host,
                finished: false,
                program: Ghost(self.program@),
            },
        )
    }

    /// Runs at most `fuel` instructions of `exec`, as
    /// [`crate::vm::semantics::run`] prescribes (see [`resumed`]); after a
    /// host has ended the program it only answers `Finished`.
    #[verifier::rlimit(40)]
    pub fn resume(&mut self, exec: &mut Execution, fuel: u64) -> (r: Result<Suspension, VMError>)
        ensures
            resumed(r, old(self), final(self), *old(exec), *final(exec), fuel as nat),
    {
        if exec.finished {
            return Ok(Suspension::Finished);
        }
        let ghost program = exec.program();
        let ghost host = exec.host();
        let ghost goal = crate::vm::semantics::run(program, exec.ip(), self.state(), host, fuel as nat);
        let mut remaining = fuel;
        loop
            invariant
                exec.program() == program,
                exec.host() == host,
                program == old(exec).program(),
                host == old(exec).host(),
                !old(exec).finished(),
                !exec.finished(),
                exec.finished() == old(exec).finished(),
                self.program == old(self).program,
                self.executeby == old(self).executeby,
                goal == crate::vm::semantics::run(program, old(exec).ip(), old(self).state(), host, fuel as nat),
                goal == crate::vm::semantics::run(program, exec.ip(), self.state(), host, remaining as nat),
            decreases remaining,
        {
            proof {
                use_type_invariant(&*exec);
            }
            let ip = exec.ip;
            if ip >= exec.count {
                return Ok(Suspension::Finished);
            }
            if remaining == 0 {
                return Ok(Suspension::OutOfSteps);
            }
            let ghost before = self.state();
            proof {
                assert(((remaining - 1) as nat) + 1 == remaining as nat);
            }
            match self.execute_at(exec, ip) {
                Err(e) => {
                    return Err(e);
                },
                Ok(Flow::Next(next)) => {
                    exec.ip = next;
                    remaining = remaining - 1;
                },
                Ok(Flow::Host { service, address, size }) => {
                    return Ok(Suspension::Host { service, address, size });
                },
                Ok(Flow::Float { op, dst, lhs, rhs }) => {
                    exec.ip = ip + 1;
                    return Ok(Suspension::Float { op, dst, lhs, rhs });
                },
                Ok(Flow::InvalidSignature) => {
                    return Ok(Suspension::InvalidSignature);
                },
            }
        }
    }

    /// Answers the `VMCALL` that [`WVM::resume`] stopped at: `Continue`
    /// goes on with the next instruction; `Exit` records the exit code and
    /// ends the program.
    pub fn finish_host_call(&mut self, exec: &mut Execution, decision: VMCallDecision)
        requires
            old(exec).ip() < old(exec).program().len(),
        ensures
            final(exec).program() == old(exec).program(),
            final(exec).host() == old(exec).host(),
            final(self).registers@ == old(self).registers@,
            final(self).memory@ == old(self).memory@,
            final(self).call_stack@ == old(self).call_stack@,
            final(self).program == old(self).program,
            final(self).executeby == old(self).executeby,
            match decision {
                VMCallDecision::Continue => {
                    &&& final(exec).ip() == old(exec).ip() + 1
                    &&& final(exec).finished() == old(exec).finished()
                    &&& final(self).exit_code == old(self).exit_code
                },
                VMCallDecision::Exit { code } => {
                    &&& final(exec).ip() == old(exec).ip()
                    &&& final(exec).finished()
                    &&& final(self).exit_code == Some(code)
                },
            },
    {
        proof {
            use_type_invariant(&*exec);
        }
        match decision {
            VMCallDecision::Continue => {
                exec.ip = exec.ip + 1;
            },
            VMCallDecision::Exit { code } => {
                self.exit_code = Some(code);
                exec.finished = true;
            },
        }
    }

    /// The value that slot `n` of the instruction at `base` reads: the
    /// register it names when `reg`, the slot itself otherwise.
    fn read_operand(&self, code: &[u64], base: usize, n: usize, reg: bool) -> (r: u64)
        requires
            base + n < code@.len(),
            reg ==> code@[base + n] < 255,
        ensures
            r == (if reg {
                self.registers@[code@[base + n] as int]
            } else {
                code@[base + n]
            }),
    {
        if reg {
            read_reg(self, code, base, n)
        } else {
            read_imm(code, base, n)
        }
    }

    /// Executes the instruction at `ip`.
    #[verifier::rlimit(40)]
    fn execute_at(&mut self, exec: &Execution, ip: usize) -> (r: HandlerResult)
        requires
            ip < exec.program().len(),
        ensures
            handlers::outcome(
                r,
                old(self).state(),
                final(self).state(),
                crate::vm::semantics::step(exec.program()[ip as int], ip as int, old(self).state(), exec.host()),
            ),
            final(self).program == old(self).program,
            final(self).executeby == old(self).executeby,
    {
        proof {
            use_type_invariant(exec);
        }
        let ghost i = exec.program@[ip as int];
        let code = exec.code.as_slice();
        let _len = code.len();
        proof {
            lemma_encoded_instruction(exec.program@, ip as int);
            lemma_valid_instruction(i);
        }
        let base = ip * SLOTS;
        let head = slot(code, base, 0);
        let byte = head / 8;
        let kinds = head % 8;
        proof {
            assert(exec.table@[head as int] == jumptable::jump_table_at(head as int));
        }
        let entry = exec.table[head as usize];
        let shape = match entry {
            Some(shape) => shape,
            None => {
                return Ok(Flow::InvalidSignature);
            },
        };
        let op = OperationCode::from_byte(byte as u8).unwrap();
        let v1 = self.read_operand(code, base, 1, kinds % 2 == 1);
        let v2 = self.read_operand(code, base, 2, (kinds / 2) % 2 == 1);
        let v3 = self.read_operand(code, base, 3, (kinds / 4) % 2 == 1);
        let dst = Register(slot(code, base, 1) as u8);
        let host = exec.host;
        proof {
            assert(op == i.opcode);
            assert(dst == crate::vm::semantics::destination(i));
            assert(v1 == crate::vm::semantics::slot_value(self.state(), i.operand1));
            assert(v2 == crate::vm::semantics::slot_value(self.state(), i.operand2));
            assert(v3 == crate::vm::semantics::slot_value(self.state(), i.operand3));
        }
        match shape {
            Shape::Nop => handlers::nop(ip),
            Shape::Move => handlers::move_(self, op, dst, v1, v2, v3, ip, host),
            Shape::Load => handlers::load(self, op, dst, v1, v2, v3, ip, host),
            Shape::Store => handlers::store(self, op, dst, v1, v2, v3, ip, host),
            Shape::IntBinary => handlers::int_binary(self, op, dst, v1, v2, v3, ip, host),
            Shape::Division => handlers::division(self, op, dst, v1, v2, v3, ip, host),
            Shape::IntUnary => handlers::int_unary(self, op, dst, v1, v2, v3, ip, host),
            Shape::FloatBinary | Shape::FloatUnary => handlers::float(self, op, dst, v1, v2, v3, ip, host),
            Shape::Jump | Shape::JumpIf => handlers::jump(self, op, dst, v1, v2, v3, ip, host),
            Shape::Call => handlers::call(self, op, dst, v1, v2, v3, ip, host),
            Shape::Ret => handlers::ret(self, op, dst, v1, v2, v3, ip, host),
            Shape::VmCall => handlers::vmcall(self, op, dst, v1, v2, v3, ip, host),
        }
    }
}

/// The four slots of instruction `ip` in the encoding of a program.
proof fn lemma_encoded_instruction(program: Seq<Instruction>, ip: int)
    requires
        0 <= ip < program.len(),
    ensures
        encoding(program).len() == 4 * program.len(),
        encoding(program)[4 * ip] == header_of(program[ip]),
        encoding(program)[4 * ip + 1] == crate::vm::semantics::flatten(program[ip].operand1),
        encoding(program)[4 * ip + 2] == crate::vm::semantics::flatten(program[ip].operand2),
        encoding(program)[4 * ip + 3] == crate::vm::semantics::flatten(program[ip].operand3),
{
    assert((4 * ip) / 4 == ip && (4 * ip) % 4 == 0);
    assert((4 * ip + 1) / 4 == ip && (4 * ip + 1) % 4 == 1);
    assert((4 * ip + 2) / 4 == ip && (4 * ip + 2) % 4 == 2);
    assert((4 * ip + 3) / 4 == ip && (4 * ip + 3) % 4 == 3);
}

/// What the header of an instruction that passes the checks tells: its
/// opcode, which of its operands are registers, and that those registers
/// exist; where the signature is valid, the destination of the opcodes
/// that write one is a register that exists.
proof fn lemma_valid_instruction(i: Instruction)
    requires
        validation_error(i) is None,
    ensures
        ({
            let h = header_of(i);
            let k = crate::vm::semantics::kinds(i);
            &&& k < 8
            &&& h / 8 == crate::isa::opcode::opcode_byte(i.opcode)
            &&& h % 8 == k
            &&& h < TABLE_LEN
            &&& crate::isa::opcode::opcode_of_byte((h / 8) as u8) == Some(i.opcode)
            &&& (k % 2 == 1) == crate::vm::semantics::is_register(i.operand1)
            &&& ((k / 2) % 2 == 1) == crate::vm::semantics::is_register(i.operand2)
            &&& ((k / 4) % 2 == 1) == crate::vm::semantics::is_register(i.operand3)
        }),
        crate::vm::semantics::is_register(i.operand1) ==> crate::vm::semantics::flatten(i.operand1) < 255,
        crate::vm::semantics::is_register(i.operand2) ==> crate::vm::semantics::flatten(i.operand2) < 255,
        crate::vm::semantics::is_register(i.operand3) ==> crate::vm::semantics::flatten(i.operand3) < 255,
{
    crate::isa::opcode::lemma_opcode_byte(i.opcode);
}

/// Resuming a run for `a` instructions and then, when they ran out, for `b`
/// more leaves the machine and the run as one resumption for `a + b` does.
pub proof fn lemma_resume_in_pieces(
    r1: Result<Suspension, VMError>,
    r2: Result<Suspension, VMError>,
    w0: &WVM,
    w1: &WVM,
    w2: &WVM,
    e0: Execution,
    e1: Execution,
    e2: Execution,
    a: nat,
    b: nat,
)
    requires
        resumed(r1, w0, w1, e0, e1, a),
        r1 == Ok::<Suspension, VMError>(Suspension::OutOfSteps),
        resumed(r2, w1, w2, e1, e2, b),
    ensures
        resumed(r2, w0, w2, e0, e2, a + b),
{
    crate::vm::semantics::lemma_run_split(e0.program(), e0.ip(), w0.state(), e0.host(), a, b);
}

/// Once a program has an error among its first instructions, the first error
/// among more of them is the same.
pub proof fn lemma_first_error_stays(program: Seq<Instruction>, m: nat, n: nat)
    requires
        m <= n,
        first_error(program, m) is Some,
    ensures
        first_error(program, n) == first_error(program, m),
    decreases n,
{
    if n > m {
        lemma_first_error_stays(program, m, (n - 1) as nat);
    }
}

/// Every instruction of a program without errors passes the checks.
pub proof fn lemma_no_error_each(program: Seq<Instruction>, n: nat, j: int)
    requires
        first_error(program, n) is None,
        0 <= j < n,
    ensures
        validation_error(program[j]) is None,
    decreases n,
{
    if j < n - 1 {
        lemma_no_error_each(program, (n - 1) as nat, j);
    }
}

} // verus!
