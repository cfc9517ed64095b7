# printing_press

Verified parts of the compiler for the Inklang scripting language, written in
Verus.

- `src/error.rs` — parse error values and their messages.
- `src/diagnostic.rs` — `CompileError` and its rendering with the failing
  source line and a caret under the failing column.
- `src/text.rs` — decimal numerals, runs of spaces and the lines of a source
  (the semantics of `str::lines`).
- `src/constants.rs` — the lowerer's constant table, in which each value has
  one canonical index (floats compared as IEEE 754 numbers). The lowerer is
  not in this crate, so nothing here fills the table of a compiled script:
  the one-index-per-value law is proved of the table alone.
- `src/peephole.rs` — the peephole pass over the final linear IR: removal of
  self-moves and of jumps to a label that follows with only labels in
  between (a jump right after another unconditional jump is kept).
- `src/batch.rs` — which files a batch compilation takes (extension `ink`)
  and the names it gives them (`<stem>.inkc`, `unknown` without a stem).
- `src/pipeline.rs` — the decisions taken between the compiler's stages:
  a parse failure becomes a rendered `CompileError`; the allocated
  instruction stream is cleaned by the peephole pass before codegen.
- `app/` — the command-line front end (`compile` subcommand, single-file and
  batch modes). It drives the compiler stages (lexer, parser, lowering, SSA,
  register allocation, codegen, serialization), which this crate does not
  contain.
