# lib: a verified RV32I emulator core

A small RV32I core with 32 registers, a program counter and 1024 bytes of
memory, verified with Verus.

- `src/rv32i/rom.rs`: the memory (`Rom`), its little-endian loads and
  stores, and the example program with its data.
- `src/rv32i/isa.rs`: the mathematical model: instruction fields, the state
  `CpuState`, `execute` (what one instruction does), `can_execute` (when
  it stays within the machine's arithmetic and memory) and `step`.
- `src/rv32i.rs`: the core `CpuOfRV32I`, whose `decode_and_execute`,
  `fetch`, `next` and `get_array` are proved against that model.
- `src/rv32i/decode.rs`: what a trace shows of an instruction.
- `src/rv32i/example_run.rs`: runs of several steps and the proof that the
  example program sorts its data.
- `src/rv32i/laws.rs`: properties of the model that span instructions or
  steps.
- `app/main.rs`: runs the example program for 65 steps and prints a trace.
