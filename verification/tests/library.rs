use xrune::ds_node::{DsNode, DsRoot, DsTree};
use xrune::fmt_expr::token_string;
use xrune::grammar::DsError;
use xrune::layout::rebase;
use xrune::lex::lex;
use xrune::node_type::{is_custom_keyword, DsNodeType};
use xrune::tree_fmt::format_dsl;

fn tree_err(src: &str) -> DsError {
    DsTree::parse(&lex(src).unwrap()).unwrap_err()
}

#[test]
fn rebase_shifts_block_keeping_nesting() {
    let out = rebase(&["    a(", "        b", "", "    )"], "  ", false);
    assert_eq!(out, "  a(\n      b\n\n  )");
}

#[test]
fn rebase_first_line_bare() {
    let out = rebase(&["x(", "    y", ")"], "> ", true);
    assert_eq!(out, "x(\n>     y\n> )");
}

#[test]
fn rebase_all_empty_lines() {
    assert_eq!(rebase(&["", ""], "    ", false), "\n");
    assert_eq!(rebase(&[], "    ", false), "");
}

#[test]
fn rebase_counts_lead_in_bytes() {
    // U+3000 is whitespace three bytes wide
    let out = rebase(&["\u{3000}a", "b"], "", false);
    assert_eq!(out, "   a\nb");
}

#[test]
fn error_expected() {
    assert_eq!(tree_err("if show_footer"), DsError::Expected);
}

#[test]
fn error_rust() {
    assert_eq!(tree_err("W (x: ) {}"), DsError::Rust);
}

#[test]
fn error_on_without_widget() {
    assert_eq!(tree_err("on Tap { fire() }"), DsError::OnWithoutWidget);
}

#[test]
fn error_on_not_widget() {
    assert_eq!(tree_err("if a { W {} } on Tap { fire() }"), DsError::OnNotWidget);
}

#[test]
fn error_header_one_line() {
    let e = DsRoot::parse(&lex(":(a: 1, b: 2:) W {}").unwrap()).unwrap_err();
    assert_eq!(e, DsError::HeaderOneLine);
}

#[test]
fn error_unexpected() {
    assert_eq!(tree_err("W {} V {}"), DsError::Unexpected);
}

#[test]
fn what_type_announces_kinds() {
    let t = lex("${ x } @n match if walk Widget on 1").unwrap();
    assert_eq!(DsNodeType::what_type(&t, 0), Ok(DsNodeType::CodeBlock));
    assert_eq!(DsNodeType::what_type(&t, 2), Ok(DsNodeType::Niche));
    assert_eq!(DsNodeType::what_type(&t, 4), Ok(DsNodeType::Match));
    assert_eq!(DsNodeType::what_type(&t, 5), Ok(DsNodeType::If));
    assert_eq!(DsNodeType::what_type(&t, 6), Ok(DsNodeType::Iter));
    assert_eq!(DsNodeType::what_type(&t, 7), Ok(DsNodeType::Widget));
    assert_eq!(DsNodeType::what_type(&t, 8), Err(DsError::OnWithoutWidget));
    assert_eq!(DsNodeType::what_type(&t, 9), Err(DsError::Expected));
    assert!(is_custom_keyword(&t, 8));
    assert!(!is_custom_keyword(&t, 7));
}

#[test]
fn format_exact_small_tree() {
    let out = format_dsl("Column (grow: 1) { Text (\"x\") }", "").unwrap();
    assert_eq!(out, "    Column (grow: 1) {\n        Text (\"x\")\n    }\n");
}

#[test]
fn format_header_block_exact() {
    let out = format_dsl(":(\nparent: p\nworld: w\n:)\nW {}", "").unwrap();
    assert_eq!(out, "    :(\n        parent: p\n        world: w\n    :)\n\n    W ()\n");
}

#[test]
fn format_base_indent_shifts_everything() {
    let out = format_dsl("W {}", "  ").unwrap();
    assert_eq!(out, "      W ()\n");
}

#[test]
fn format_long_attr_list_goes_multiline() {
    let src = "W (first_attribute_name: 1111111111, second_attribute_name: 2222222222, third_attribute_name: 3333333333) {}";
    let out = format_dsl(src, "").unwrap();
    assert!(out.starts_with("    W (\n        first_attribute_name: 1111111111,\n"), "got {out}");
    assert!(out.contains("\n        third_attribute_name: 3333333333\n    )\n"), "got {out}");
}

#[test]
fn format_multiline_source_attrs_stay_multiline() {
    let out = format_dsl("W (a: 1,\n   b: 2) {}", "").unwrap();
    assert_eq!(out, "    W (\n        a: 1,\n        b: 2\n    )\n");
}

#[test]
fn format_refuses_what_does_not_parse() {
    assert!(format_dsl("on Tap { x() }", "").is_none());
    assert!(format_dsl("W { (", "").is_none());
}

#[test]
fn format_handler_body_pretty_printed() {
    let out = format_dsl("V () on Tap { a . b ( ) ; }", "").unwrap();
    assert!(out.contains("on Tap { a.b(); }"), "got {out}");
}

#[test]
fn format_code_block_fallback_free_text() {
    let out = format_dsl("W { ${ let x = 1; } }", "").unwrap();
    assert!(out.contains("${ let x = 1; }"), "got {out}");
}

#[test]
fn token_text_of_parent_unit() {
    let root = DsRoot::parse(&lex("W {}").unwrap()).unwrap();
    assert_eq!(token_string(root.get_parent()), "()");
}

#[test]
fn source_lines_recorded() {
    let toks = lex("a\n\nb").unwrap();
    assert_eq!(toks.len(), 2);
    match (&toks[0], &toks[1]) {
        (xrune::token::Tok::Ident { lines: l0, .. }, xrune::token::Tok::Ident { lines: l1, .. }) => {
            assert_eq!(l0.start, 1);
            assert_eq!(l1.start, 3);
        }
        _ => panic!("expected two identifiers"),
    }
}

#[test]
fn accessors_expose_the_parsed_parts() {
    let tree = DsTree::parse(
        &lex("W (a: 1) [ Grow(2), Fade ] on Tap(x) { go(x) } { if $c { V {} } walk rows.iter() with r by r.id { V {} } match m { Some(v) => { V {} } } ${ let k = 1; } }").unwrap(),
    )
    .unwrap();
    match tree.get_node() {
        DsNode::Widget(w) => {
            assert_eq!(w.get_enchants().len(), 2);
            assert_eq!(token_string(&w.get_enchants()[0]), "Grow (2)");
            let h = &w.get_on_handlers()[0];
            assert_eq!(token_string(&h.get_args()[0]), "x");
            assert_eq!(token_string(h.get_body().unwrap()), "go (x)");
            assert!(h.get_qualifier().is_none());
        }
        other => panic!("expected a widget, got {other:?}"),
    }
    let kids = tree.get_children();
    match kids[0].get_node() {
        DsNode::If(i) => {
            assert!(i.is_reactive());
            assert_eq!(token_string(i.get_condition()), "c");
        }
        other => panic!("expected if, got {other:?}"),
    }
    match kids[1].get_node() {
        DsNode::Iter(it) => {
            assert_eq!(token_string(it.get_iterable()), "rows . iter ()");
            assert_eq!(it.get_variable(), "r");
            assert_eq!(token_string(it.get_key().unwrap()), "r . id");
        }
        other => panic!("expected walk, got {other:?}"),
    }
    match kids[2].get_node() {
        DsNode::Match(m) => {
            assert_eq!(token_string(m.get_scrutinee()), "m");
            assert_eq!(token_string(m.get_arms()[0].get_pat()), "Some (v)");
        }
        other => panic!("expected match, got {other:?}"),
    }
    match kids[3].get_node() {
        DsNode::CodeBlock(c) => {
            assert_eq!(c.get_source_text().unwrap(), "{ let k = 1; }");
        }
        other => panic!("expected code block, got {other:?}"),
    }
}

#[test]
fn rebase_removes_uniform_extra_lead() {
    let plain = ["a {", "    b", "", "}"];
    let shifted = ["   a {", "       b", "", "   }"];
    for bare in [false, true] {
        assert_eq!(rebase(&plain, "  ", bare), rebase(&shifted, "  ", bare));
    }
}

#[test]
fn rebase_bare_first_line_only_changes_line_zero() {
    let lines = ["    x(", "        y", "    )"];
    let bare = rebase(&lines, "  ", true);
    let full = rebase(&lines, "  ", false);
    let a: Vec<&str> = bare.split('\n').collect();
    let b: Vec<&str> = full.split('\n').collect();
    assert_eq!(a.len(), b.len());
    assert_eq!(a[0], "x(");
    assert_eq!(&a[1..], &b[1..]);
}

#[test]
fn rebase_twice_changes_nothing() {
    let lines = ["      if x {", "          y();", "", "      }"];
    let once = rebase(&lines, "    ", false);
    let again: Vec<&str> = once.split('\n').collect();
    assert_eq!(rebase(&again, "    ", false), once);
    assert_eq!(once, "    if x {\n        y();\n\n    }");
}
