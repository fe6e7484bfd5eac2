//! xrune: a declarative UI DSL — its token model, its grammar, its tree,
//! its source formatter and its code generation, each with a
//! machine-checked contract.

pub mod text;
pub mod layout;
pub mod token;
pub mod syntax;
pub mod ds_node;
pub mod grammar;
pub mod parse;
pub mod entry;
pub mod fmt_spec;
pub mod fmt_expr;
pub mod format;
pub mod tree_fmt;
pub mod lex;
pub mod node_type;
pub mod rune_spec;
pub mod rune;
pub mod ds_ref;
pub mod laws;
pub mod xwrapup;
