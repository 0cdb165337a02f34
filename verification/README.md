# Zet

Zet (Zero Trust) is a small language whose compiler refuses programs that use
data from the outside world before validating it. This crate is the compiler's
library, written in Verus: every function carries a contract and is proved
against it.

## Layout

- `src/lexer.rs`, `src/grammar.rs`, `src/parser.rs`: the grammar of Zet as
  functions over the characters of the source, and the parser that is proved
  to read exactly that grammar.
- `src/ast.rs`: the syntax tree and its mathematical model.
- `src/analysis/`: the three checks — determinism (`deterministic` functions do
  no I/O, `call` only before I/O), taint (untrusted data must pass `validate`)
  and scope (`spawn` only inside `scope`, names defined before use, `break` and
  `continue` only in loops).
- `src/codegen.rs`: the Rust program written for a checked Zet program.
- `src/compiler.rs`: the pipeline (`compile`, `check_program`, editor
  diagnostics, module handling).
- `src/imports.rs`: resolving `import` items, as a state machine whose caller
  finds and reads the files.
- `src/runtime.rs`: the computing parts of the runtime of compiled programs.
- `src/laws.rs`: properties of the whole, such as "a program is compiled only
  when every function passes every check".
- `src/zero_trust.rs`: the central guarantee — a function that passes the
  taint check never uses tainted data outside the `success` block of its
  `validate` — and that no statement ever clears a tainted name.
- `src/round_trip.rs`: a string literal written by the generator reads back
  as the same string.
- `app/`: the `zet` command (files, `cargo`, the language server) and the
  runtime's input and output.
