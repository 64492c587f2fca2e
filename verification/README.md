# little-rust

Small Rust exercises written as a Verus library: every function in `src/`
carries a contract that Verus proves.

- `src/` — the verified library, one module per exercise (message processing,
  ownership and slicing, generic search, stable sorting by salary, memoizing
  closures, quota alerts, console command parsing, a small binary file format,
  bit flags, windowed iteration, Fibonacci numbers, ...).
- `tests/` — the exercises' tests and tests of the library's contracts.
- `app/` — the console program and the parts that are I/O, threads, unsafe code
  or floating point: it reads commands, prints, spawns workers, forks and
  reads files, and calls the library for every decision.

Verify with Verus on `src/lib.rs`; build the tests and `app/` with Cargo.
