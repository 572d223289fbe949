# W8

A register-based virtual machine with 64-bit registers, an interpreter and
a JIT compiler to x64 and 32-bit x86, written in Verus: the library's behaviour is stated
in `requires`/`ensures` contracts and proved.

## Layout

- `src/` — the verified library:
  - `isa/` — opcodes, operands, registers, instructions and their binary
    form (decoding, and the law that decoding reads back what is written);
  - `loader/` — the `.wb` file format: header, version check, instruction
    scanning (and the law that a written program loads back);
  - `vm/memory.rs`, `vm/register_file.rs` — the machine's memory and
    registers;
  - `vm/semantics.rs` — what one instruction and a run of a program do;
  - `vm/interpreter/` — the interpreter, proved to follow the semantics; it
    runs in pieces and stops where a host (`VMCALL`) or a floating-point
    operation is due;
  - `vm/jit/codegen/` — the x64 and x86 code generators, with the exact
    bytes of the generated code stated; `vm/jit/mod.rs` — what the JIT's
    trampolines and the 64-bit division helpers of x86 code decide;
  - `w8.rs` — loading bytecode and setting up a machine.
- `app/` — what cannot be verified: running programs to the end (host calls
  and floating point), executable memory and trampolines of the JIT, file
  input, printing, and the assembler.
- `tests/` — tests of the library.
