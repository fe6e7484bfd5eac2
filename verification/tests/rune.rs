use xrune::ds_node::{DsRoot, DsTree};
use xrune::fmt_expr::token_string;
use xrune::lex::lex;
use xrune::rune::{decipher, expand, DefaultRune, DsRune};
use xrune::syntax::tok_tree;
use xrune::ds_ref::{ds_ref_derive_macro, ds_ref_expansion};
use xrune::token::{Delim, Lines, Tok};

fn expanded(src: &str) -> String {
    let root = DsRoot::parse(&lex(src).unwrap()).unwrap();
    token_string(&expand(&root))
}

#[test]
fn default_rune_widget_lines() {
    let out = expanded("Widget (x: 1) {}");
    assert!(out.contains("\"let {} = {:?}\""), "root line, got {out}");
    assert!(out.contains("\"let {} = obj::new({})\""), "creation line, got {out}");
    assert!(out.contains("\"Widget\" , \"parent\""), "created under parent, got {out}");
    assert!(out.contains("\"{}.set_{}({:?})\" , \"Widget\" , \"x\" , 1"), "setter, got {out}");
}

#[test]
fn default_rune_parent_is_header_parent() {
    let out = expanded(":(parent: root_entity:) Widget {}");
    assert!(out.contains("\"parent\" , root_entity"), "parent expression spliced, got {out}");
}

#[test]
fn default_rune_children_created_under_widget() {
    let out = expanded("Outer { Inner {} }");
    assert!(out.contains("\"Inner\" , \"Outer\""), "child under its parent widget, got {out}");
}

#[test]
fn default_rune_parent_restored_after_children() {
    let out = expanded("Outer { Mid { Deep {} } Next {} }");
    assert!(out.contains("\"Deep\" , \"Mid\""), "got {out}");
    assert!(out.contains("\"Next\" , \"Outer\""), "sibling after a nested widget, got {out}");
}

#[test]
fn default_rune_positional_attr_label() {
    let out = expanded("Text (\"hi\") {}");
    assert!(out.contains("\"<positional>\""), "got {out}");
}

#[test]
fn default_rune_handler_arity_is_usize_literal() {
    let out = expanded("View () on Tap(a, b) { f() }");
    assert!(out.contains("\"{}.on_{}({} args)\" , \"View\" , \"Tap\" , 2usize"), "got {out}");
}

#[test]
fn default_rune_if_else_and_walk() {
    let out = expanded("Root { if cond { A {} } else { B {} } walk items with it { C {} } }");
    assert!(out.contains("\"if {} {{\" , \"cond\""), "got {out}");
    assert!(out.contains("\"}}\""), "got {out}");
    assert!(out.contains("\"B\" , \"Root\""), "else body is walked, got {out}");
    assert!(out.contains("\"for {} in {} {{\" , \"it\" , \"items\""), "got {out}");
}

#[test]
fn default_rune_niche_match_and_code_block() {
    let out = expanded("Root { @slot { A {} } match s { 0 => { B {} } } ${ let v = \"a\"; } }");
    assert!(out.contains("\"@{} {{\" , \"slot\""), "got {out}");
    assert!(out.contains("\"match {} {{\" , \"s\""), "got {out}");
    assert!(out.contains("\"  {} => {{\" , \"0\""), "got {out}");
    assert!(out.contains("\"  }}\""), "got {out}");
    assert!(out.contains("\"${{ {} }}\""), "got {out}");
    assert!(out.contains("\\\"a\\\""), "a string inside a code block is escaped, got {out}");
}

#[test]
fn decipher_with_default_rune_matches_inscribe_tree() {
    let tree = DsTree::parse(&lex("Root { A (w: 1) on Tap { f() } if c { B {} } elif d { C {} } }").unwrap()).unwrap();
    let mut walked = DefaultRune::new();
    decipher(&tree, &mut walked);
    let mut direct = DefaultRune::default();
    direct.inscribe_tree(&tree);
    assert_eq!(token_string(&walked.seal()), token_string(&direct.seal()));
}

fn at(line: usize) -> Lines {
    Lines { start: line, end: line }
}

#[test]
fn tok_tree_builds_trees_for_valid_tokens() {
    let ident = Tok::Ident { text: "foo".chars().collect(), lines: at(1) };
    assert_eq!(tok_tree(&ident).unwrap().to_string(), "foo");
    let punct = Tok::Punct { ch: '#', joint: false, lines: at(1) };
    assert_eq!(tok_tree(&punct).unwrap().to_string(), "#");
    let lit = Tok::Lit { text: "42".chars().collect(), lines: at(1) };
    assert_eq!(tok_tree(&lit).unwrap().to_string(), "42");
    let group = Tok::Group { delim: Delim::Paren, inner: vec![ident, punct, lit], lines: at(1), source: None };
    assert_eq!(tok_tree(&group).unwrap().to_string(), "(foo # 42)");
}

#[test]
fn tok_tree_refuses_tokens_without_a_tree() {
    let bad_punct = Tok::Punct { ch: 'a', joint: false, lines: at(1) };
    assert!(tok_tree(&bad_punct).is_none());
    let empty_ident = Tok::Ident { text: Vec::new(), lines: at(1) };
    assert!(tok_tree(&empty_ident).is_none());
    let ok = Tok::Ident { text: "x".chars().collect(), lines: at(1) };
    let group = Tok::Group { delim: Delim::Brace, inner: vec![ok, bad_punct], lines: at(1), source: None };
    assert!(tok_tree(&group).is_none());
}

#[test]
fn ds_ref_derive_expands_for_the_struct_name() {
    let toks = lex("pub struct Counter { n: u32 }").unwrap();
    let out = ds_ref_derive_macro(&toks).unwrap();
    let name: Vec<char> = "Counter".chars().collect();
    assert_eq!(token_string(&out), token_string(&ds_ref_expansion(&name)));
    let text = token_string(&out);
    assert!(text.starts_with("impl Counter"));
    assert!(text.contains("pub struct CounterRef"));
    assert!(text.contains("impl Clone for CounterRef"));
    assert!(text.contains("core :: ops :: Deref for CounterRef"));
    assert!(text.contains("core :: ops :: DerefMut for CounterRef"));
    assert!(text.contains("fn into_ref (self) -> CounterRef"));
}

#[test]
fn ds_ref_derive_strips_raw_prefix_from_handle_name() {
    let toks = lex("struct r#Foo;").unwrap();
    let text = token_string(&ds_ref_derive_macro(&toks).unwrap());
    assert!(text.starts_with("impl r#Foo"));
    assert!(text.contains("pub struct FooRef"));
    assert!(!text.contains("r#FooRef"));
}

#[test]
fn ds_ref_derive_refuses_non_items() {
    let toks = lex("fn f() {}").unwrap();
    assert!(ds_ref_derive_macro(&toks).is_none());
}
