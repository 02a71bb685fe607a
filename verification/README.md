# oxide

A compiler for Oxide, a small C-like language, to C, written in Verus.

- `src/lexer`: the token grammar as predicates on words (`spec.rs`), the lexer
  that follows it by longest match (`mod.rs`), and laws about lexing (`laws.rs`).
- `src/parser`: the grammar as a function from tokens to outcomes (`spec.rs`), the
  recursive-descent parser proved to follow it (`mod.rs`), and laws (`laws.rs`).
- `src/typechecker`: the checker's state as scopes of maps, what each statement and
  expression does to it, the checker proved against that model, and laws.
- `src/codegen`: the C text of each construct and the generator that emits it.
- `app/main.rs`: the command-line program: reads a file, runs the four stages,
  writes the C file and calls `gcc`.
