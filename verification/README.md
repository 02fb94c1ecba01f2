# srs_compiler

A small compiler from a subset of Rust to textual LLVM-IR, with a parser and
an emulator for the LLVM-IR it emits, verified with Verus.

## Layout

- `src/text.rs`, `src/collections.rs` — byte strings, lists, a string-keyed
  hash map, and the decimal conversions, with their laws.
- `src/rust_lexer.rs` — the lexer of the Rust subset; `spec_next_token` says
  which token the text yields next and where reading stops.
- `src/rust_types.rs`, `src/symtable.rs` — the types of the language, the
  casting rules, and the scoped symbol table.
- `src/codegen.rs` — register numbering and the LLVM-IR text of each
  instruction.
- `src/parser.rs` — the recursive-descent parser and type checker, which
  writes LLVM-IR as it reads; `src/parser_spec.rs` states, as functions on
  parser states, what every parsing function returns and leaves, and
  `spec_compile` what a whole program compiles to.
- `src/llvm_lexer.rs`, `src/llvm_ast.rs`, `src/llvm_parser.rs` — the LLVM-IR
  lexer, syntax tree and parser; `src/llvm_parser_spec.rs` states what the
  parser reads, up to `l_program` for a whole source file.
- `src/emulator.rs` — the LLVM-IR emulator, specified by a fuel-indexed
  semantics (`run_function`, `main_result`).
- `src/lexer.rs`, `src/core_lexer.rs`, `src/token.rs`, `src/runtime.rs`,
  `src/wrapper.rs`, `src/prototype.rs` — a smaller lexer and its support.
- `app/main.rs` — the command-line compiler: reads a file, writes `code.ll`.
- `tests/` — tests of every part.
