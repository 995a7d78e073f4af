# rlox

The front end and the runtime data of an interpreter for Lox, the language of
*Crafting Interpreters*, with their behaviour stated in contracts and proved.

- `src/lexer.rs` — the scanner: the tokens of a script, line by line.
- `src/parser/` — the recursive-descent parser; `grammar.rs` states the
  grammar as functions of the token sequence, and the parser is proved to
  follow it.
- `src/resolver/` — the static resolver: scope distances of local names and
  the errors that can be found before a program runs; `rules.rs` states what
  it does to its state and to the tree.
- `src/environment.rs` — the environments of a running program, kept in one
  store and named by index.
- `src/runtime.rs` — function, class and instance values.
- `src/runner.rs` — the front end of a run: scan, parse, resolve.
- `src/ast.rs`, `src/ast_clone.rs`, `src/token.rs`, `src/error.rs` — the
  syntax tree and its copies, tokens and errors, each with its mathematical
  value.
- `app/` — the evaluator (Lox numbers are floating point) and the command
  line: run a file, or read lines from standard input.
