# zanop

The verified core of Zanop, a small x86_64 hobby kernel, written in Verus.

- `src/` — the library, verified with Verus:
  - `fs`: the in-memory filesystem (folders, files, current directory) and
    its laws;
  - `shell`: parsing and running the shell commands `chd`, `cre`, `con`,
    `info`, `app`;
  - `apps`: the calculator's left-to-right evaluator, the notes session, the
    clock line and the snake game;
  - `drivers`: VGA text writer, keyboard scancodes and line editing, CMOS
    clock decoding, serial port set-up;
  - `memory`: bump allocator and page-table entries;
  - `arch`: GDT, IDT gates and PIC command sequences;
  - `task`: tasks and the round-robin scheduler;
  - `text`: the string handling the rest relies on.
- `app/` — the kernel around the library: port I/O, the hardware text buffer,
  descriptor-table loading, global state behind spin locks, and the
  interactive loops.
- `tests/` — tests of the library on concrete values.
