# infer

A verified front end for a small, statically typed toy language: a lexer, a
recursive-descent parser, symbol resolution and constraint-based type inference
with unification. The library in `src/` is written in Verus; every function
carries a contract that Verus proves, except two trusted wrappers of the standard
library in `src/text.rs` (`str_slice`, slicing a string by byte offsets, and
`char_text`, the text of one character), whose contracts Verus takes as given.

## Layout

- `src/text.rs`: UTF-8 offsets, slicing and decimal text.
- `src/lexer/`: the scanner. `scan.rs` states what the lexer reads at each
  position (`scan_all`); `mod.rs` is the executable lexer proved against it.
- `src/ast/`: the syntax tree, its mathematical views, and the node identifiers
  (`node_ids.rs`).
- `src/parser/`: the parser. `grammar.rs` states the grammar over the token
  stream; each sub-parser is proved to compute what the grammar says.
  `grammar_laws.rs` proves that operators bind by precedence and associate to the
  left, and that comparisons never chain.
- `src/semantic/`: symbol resolution (`resolution.rs` states it,
  `symbol_resolution.rs` performs it, `resolution_laws.rs` proves its
  guarantees), type inference (`inference/generation.rs` states constraint
  generation, `inference/type_inference.rs` performs it, `inference/unifier.rs`
  solves the constraints and proves the solution satisfies them) and the
  `Analyzer` that runs both passes.
- `src/infer.rs`: the `Infer` entry point, from source text to a program.
- `app/main.rs`: the command-line program and the file-reading entry point.
- `tests/`: the test suite.
