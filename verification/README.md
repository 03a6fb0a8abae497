# mimu

A small MIPS toolkit, verified with Verus: instruction encoding and decoding, an assembler
front end, and an emulator.

- `src/instruction.rs` — the `Instruction` type, field accessors, `encode` / `decode`, and the
  laws relating them (decoding an encoding gives the instruction back).
- `src/register.rs` — register names and numbers.
- `src/text.rs` — character-level helpers: trimming, splitting, reading numbers.
- `src/assembler.rs`, `src/assembler/parser.rs` — parsing assembly lines, resolving labels,
  assembling a source text into an `Image`.
- `src/parser.rs` — a single-line parser that keeps `li` as a full 32-bit `LoadImmediate`.
- `src/emulator.rs`, `src/emulator/cpu.rs`, `src/emulator/memory.rs` — the emulator, its
  register file and its byte memory.
- `src/cpu.rs` — a minimal emulator that runs bare text from address 0.
- `app/main.rs` — the command line: reads a file, assembles it, runs it and prints the trace.
