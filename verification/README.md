# r3emu

An emulator for the R3 processor. The library under `src/` is verified with
Verus; `app/` is the command-line program (argument parsing, file I/O, the
SDL2 window) around it.

- `alu` — 16-bit ALU operations and flags, with their arithmetic model.
- `isa` — instruction word fields.
- `keyboard` — the keyboard device (live keypress and queued input).
- `terminal` — the character terminal: pixel buffer, glyph drawing,
  scroll-print and pixel-plot devices.
- `bus` — memory with the memory-mapped keyboard and terminal.
- `vm` — the multi-core machine: instruction execution, scheduled memory
  operations, tracing, cycles.
- `disassembler` — instruction words to assembly text.
- `memview` — colors for the memory view.
