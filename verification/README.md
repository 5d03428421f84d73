# bracer

Macros that help write inline assembly for ARM targets, built on a verified
library.

- `src/` is the library, verified with Verus. It works on a plain model of a
  macro's input tokens (`EzTokenTree`, literals by their source text) and
  computes each macro's expansion (`OutTree`, which may also hold literals
  made from their value):
  `one_line` (SPSR reads and writes, the fake `blx`, `.section` directives),
  `cpu_control` (setting the CPSR control bits), `scope` (`.code 32` blocks
  inside `t32` code), `when` (compare, branch and label around a block),
  `util` (token helpers and the `concat!` line builder), `text` (decimal
  numbers and string helpers), `error` and `laws` (properties proved of the
  library as a whole).
- `app/` holds the macro entry points: it converts the compiler's token
  streams to and from the library's model and reports refused input.
- `tests/` runs the library on concrete token streams.
