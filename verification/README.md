# neoh

NeoH is a declarative hardware description language that is translated into
SystemVerilog. This crate is its verified core:

- `src/ast.rs`: the syntax tree of a source file.
- `src/parse_tree.rs`: the parse tree that the grammar's parser produces.
- `src/transformer.rs`: builds the syntax tree from the parse tree, with the
  exact shape it reads and the exact tree it builds stated as spec functions.
- `src/render.rs`, `src/emitter.rs`, `src/emmiter.rs`: the two emitters; each
  emitting method appends exactly the text that a spec function gives.
- `src/decimal.rs`: reading and writing decimal numerals.
- `app/`: the `neoh` command, which parses a file, builds its tree, emits it
  and writes the `.sv` file.
