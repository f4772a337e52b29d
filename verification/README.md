# mould

A small statically typed language: a lexer, a recursive-descent parser, a
type checker, an interpreter and a native backend that emits arm64 assembly
for macOS. Every stage is verified with Verus against a model of what it
computes.

- `src/lexer.rs`, `src/parser.rs`: source text to tokens to a syntax tree
  (`src/ast.rs`), each proved equal to its `spec_*` model.
- `src/typechecker.rs`: the checker; `src/typechecker_properties.rs` proves
  what its tables hold.
- `src/runtime.rs`: the interpreter, a big-step semantics with a budget of
  calls and loop iterations; floating point is answered by a handler that
  the caller supplies. `src/runtime_properties.rs` proves that the budget
  only stops runs and that output is whole lines.
- `src/compiler.rs`: the native backend; `src/compiler_properties.rs`
  proves what every generation step keeps.
- `src/cli.rs`: the command line.
- `app/main.rs`: the `mould` program: file access, floating point on the
  machine's doubles, and the system's `cc`.
