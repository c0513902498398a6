# goslop

A static analyzer for Go repositories that looks for signals common in
low-context generated code, with a small rule pack for Rust functions.
The analysis is written in Verus and proved against its contracts.

## Layout

- `src/text.rs`: char-level string operations with their specifications.
- `src/syntax.rs`: the arena syntax tree that the analyzers read, and the
  generic tree walk that every collector is proved against.
- `src/treesitter.rs`: the tree-sitter and tree-sitter-go calls.
- `src/go/`: the Go analysis — patterns on call targets and assignments,
  tree queries, doc comments, the signal collectors, the per-file analysis,
  and the copy of a tree-sitter tree into the arena.
- `src/rust_rules.rs`: the Rust rule pack (macro leftovers, `unwrap` and
  `expect` outside tests, `unsafe` without a `SAFETY` comment).
- `src/model.rs`, `src/order.rs`: the report types and the stable sort.
- `src/laws.rs`: properties that span several functions.
- `app/`: the command line (`scan`, `bench`), directory walking and output.
