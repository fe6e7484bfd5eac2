# xrune (verified)

A declarative UI DSL — the body of `ui! { ... }` — with its parser, its
source formatter and its default code generator, written in Verus.

- `src/token.rs`, `src/lex.rs`: the token model (Rust token trees as plain
  values with their source lines) and the conversion from `proc_macro2`.
- `src/grammar.rs`: the DSL grammar as spec functions over tokens;
  `src/parse.rs`, `src/entry.rs`: the parser, proved to compute it.
- `src/ds_node.rs`, `src/node_type.rs`: the tree and its views.
- `src/syntax.rs`: the decisions taken by `syn` and `prettyplease`, as
  named results.
- `src/text.rs`, `src/layout.rs`, `src/fmt_spec.rs`, `src/fmt_expr.rs`,
  `src/format.rs`, `src/tree_fmt.rs`: the formatter, specified and proved.
- `src/rune_spec.rs`, `src/rune.rs`: the `DsRune` backend interface, the
  walk that drives it, and the default rune.
- `src/xwrapup.rs`: the first, widget-only form of the DSL and its code.
- `src/laws.rs`: properties of the library as a whole.
- `app/lib.rs`: the proc-macro glue (`ui!` expansion, `#[derive(DsRef)]`).
