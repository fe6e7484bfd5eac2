use xrune::ds_node::{DsAttr, DsAttrs, DsNode, DsRoot, DsTree};
use xrune::fmt_expr::token_string;
use xrune::grammar::DsError;
use xrune::lex::lex;
use xrune::token::Tok;

fn toks(src: &str) -> Vec<Tok> {
    lex(src).expect("the source lexes")
}

fn parse_tree(src: &str) -> Result<DsTree, DsError> {
    DsTree::parse(&toks(src))
}

fn parse_root(src: &str) -> Result<DsRoot, DsError> {
    DsRoot::parse(&toks(src))
}

#[test]
fn parse_single_attr() {
    let attr: DsAttr = DsAttr::parse(&toks("width: 100")).unwrap();
    assert_eq!(attr.get_name().unwrap(), "width");
}

#[test]
fn parse_multiple_attrs() {
    let attrs: DsAttrs = DsAttrs::parse(&toks(r#"(width: 100, height: 200, color: "red")"#)).unwrap();
    assert_eq!(attrs.attrs.len(), 3);
    assert_eq!(attrs.attrs[0].get_name().unwrap(), "width");
    assert_eq!(attrs.attrs[1].get_name().unwrap(), "height");
    assert_eq!(attrs.attrs[2].get_name().unwrap(), "color");
}

#[test]
fn parse_empty_attrs() {
    let attrs: DsAttrs = DsAttrs::parse(&toks("()")).unwrap();
    assert_eq!(attrs.attrs.len(), 0);
}

#[test]
fn parse_no_parens_attrs() {
    let tokens = toks("{}");
    let _tokens = tokens;
}

#[test]
fn parse_widget_node() {
    let tree = parse_tree(r#"button (text: "hello") {}"#).unwrap();
    match tree.get_node() {
        DsNode::Widget(w) => {
            assert_eq!(w.get_name(), "button");
            assert_eq!(w.get_attrs().attrs.len(), 1);
            assert_eq!(w.get_attrs().attrs[0].get_name().unwrap(), "text");
        }
        _ => panic!("Expected Widget node"),
    }
}

#[test]
fn parse_widget_no_attrs() {
    let tree = parse_tree("container {}").unwrap();
    match tree.get_node() {
        DsNode::Widget(w) => {
            assert_eq!(w.get_name(), "container");
            assert_eq!(w.get_attrs().attrs.len(), 0);
        }
        _ => panic!("Expected Widget node"),
    }
}

#[test]
fn parse_nested_widgets() {
    let tree = parse_tree(
        r#"
        div (width: 100) {
            button (text: "ok") {}
            label (content: "hi") {}
        }
    "#,
    )
    .unwrap();
    match tree.get_node() {
        DsNode::Widget(w) => {
            assert_eq!(w.get_name(), "div");
        }
        _ => panic!("Expected Widget"),
    }
}

#[test]
fn parse_if_node() {
    let tree = parse_tree(
        "
        if show_footer {
            footer (height: 20) {}
        }
    ",
    )
    .unwrap();
    match tree.get_node() {
        DsNode::If(_) => {}
        _ => panic!("Expected If node"),
    }
}

#[test]
fn parse_walk_node() {
    let tree = parse_tree(
        r#"
        walk items with item {
            label (text: "x") {}
        }
    "#,
    )
    .unwrap();
    match tree.get_node() {
        DsNode::Iter(_) => {}
        _ => panic!("Expected Iter node"),
    }
}

#[test]
fn parse_expr_attr_value() {
    let attr: DsAttr = DsAttr::parse(&toks("height: 100 + A * 2")).unwrap();
    assert_eq!(attr.get_name().unwrap(), "height");
}

#[test]
fn header_optional_no_prefix() {
    let result = parse_root("div (width: 100) {}");
    assert!(result.is_ok(), "header is optional; runes fill parent");
    let root = result.unwrap();
    assert!(root.get_context_attrs().is_empty());
}

#[test]
fn parse_code_block_top_level() {
    let tree = parse_tree("${ let x = 1; }").unwrap();
    match tree.get_node() {
        DsNode::CodeBlock(code) => {
            assert!(token_string(code.get_tokens()).contains("let x = 1"));
        }
        other => panic!("expected CodeBlock, got {other:?}"),
    }
}

#[test]
fn parse_code_block_between_widgets() {
    let root = parse_tree(
        "
        Root {
            Child {}
            ${ let pad = 12; }
            OtherChild {}
        }
    ",
    )
    .unwrap();
    let kids = root.get_children();
    assert_eq!(kids.len(), 3);
    assert!(matches!(kids[1].get_node(), DsNode::CodeBlock(_)));
}

#[test]
fn parse_code_block_multi_statement() {
    let tree = parse_tree(
        "
        ${
            let x = 1;
            let y = 2;
            let z = x + y;
        }
    ",
    )
    .unwrap();
    match tree.get_node() {
        DsNode::CodeBlock(code) => {
            let s = token_string(code.get_tokens());
            assert!(s.contains("let x = 1"));
            assert!(s.contains("let y = 2"));
            assert!(s.contains("let z = x + y"));
        }
        other => panic!("expected multi-statement CodeBlock, got {other:?}"),
    }
}

#[test]
fn parse_code_block_empty() {
    let tree = parse_tree("${ }").unwrap();
    match tree.get_node() {
        DsNode::CodeBlock(code) => {
            assert!(code.get_tokens().is_empty());
        }
        other => panic!("expected empty CodeBlock, got {other:?}"),
    }
}

#[test]
fn parse_niche_with_body_widgets() {
    let tree = parse_tree(
        r#"
        @header {
            Text ("Untitled")
            Icon (name: "warn")
        }
    "#,
    )
    .unwrap();
    match tree.get_node() {
        DsNode::Niche(n) => {
            assert_eq!(n.get_name(), "header");
        }
        other => panic!("expected Niche, got {other:?}"),
    }
    assert_eq!(tree.get_children().len(), 2);
}

#[test]
fn parse_nested_widget_with_niche_refs() {
    let tree = parse_tree(
        "
        Column (grow: 1.0) {
            View (bg_color: Primary) {
                @header
            }
            View (grow: 1.0) {
                @body
            }
            View {
                @footer
            }
        }
    ",
    )
    .unwrap();
    let column_kids = tree.get_children();
    assert_eq!(column_kids.len(), 3);
    for child in column_kids {
        assert!(matches!(child.get_node(), DsNode::Widget(_)));
        let grandkids = child.get_children();
        assert_eq!(grandkids.len(), 1);
        assert!(matches!(grandkids[0].get_node(), DsNode::Niche(_)));
    }
}

#[test]
fn parse_code_block_inside_if_body() {
    let tree = parse_tree(
        "
        if cond {
            ${ let pad = 12; }
            Widget {}
        }
    ",
    )
    .unwrap();
    assert!(matches!(tree.get_node(), DsNode::If(_)));
    let kids = tree.get_children();
    assert_eq!(kids.len(), 2);
    assert!(matches!(kids[0].get_node(), DsNode::CodeBlock(_)));
}

#[test]
fn parse_code_block_inside_match_arm() {
    let tree = parse_tree(
        r#"
        match state {
            State::Loading => {
                ${ let msg = "loading"; }
                Spinner()
            }
        }
    "#,
    )
    .unwrap();
    assert!(matches!(tree.get_node(), DsNode::Match(_)));
}

#[test]
fn parse_code_block_inside_niche_body() {
    let tree = parse_tree(
        r#"
        @header {
            ${ let title = "Default"; }
            Text (title)
        }
    "#,
    )
    .unwrap();
    assert!(matches!(tree.get_node(), DsNode::Niche(_)));
    let kids = tree.get_children();
    assert_eq!(kids.len(), 2);
    assert!(matches!(kids[0].get_node(), DsNode::CodeBlock(_)));
}

#[test]
fn parse_multiple_code_blocks_in_sequence() {
    let tree = parse_tree(
        "
        Widget {
            ${ let a = 1; }
            ${ let b = 2; }
            Child {}
        }
    ",
    )
    .unwrap();
    let kids = tree.get_children();
    assert_eq!(kids.len(), 3);
    assert!(matches!(kids[0].get_node(), DsNode::CodeBlock(_)));
    assert!(matches!(kids[1].get_node(), DsNode::CodeBlock(_)));
    assert!(matches!(kids[2].get_node(), DsNode::Widget(_)));
}

#[test]
fn parse_code_block_with_closures_and_nested_braces() {
    let tree = parse_tree(
        "
        ${
            let f = |x: i32| { x + 1 };
            let r = if true { 1 } else { 2 };
        }
    ",
    )
    .unwrap();
    match tree.get_node() {
        DsNode::CodeBlock(code) => {
            let s = token_string(code.get_tokens());
            assert!(s.contains("| x"));
            assert!(s.contains("if true"));
        }
        other => panic!("expected CodeBlock, got {other:?}"),
    }
}

#[test]
fn reactive_if_with_dollar_expr_not_confused_with_code_block() {
    let tree = parse_tree(
        "
        if ${ state == State::Ready } {
            Widget {}
        }
    ",
    )
    .unwrap();
    match tree.get_node() {
        DsNode::If(if_node) => {
            assert!(
                if_node.is_reactive(),
                "`if ${{ expr }}` must resolve as reactive-if, not a top-level code block"
            );
        }
        other => panic!("expected reactive If, got {other:?}"),
    }
    assert_eq!(tree.get_children().len(), 1);
}

#[test]
fn reactive_walk_with_dollar_expr_not_confused_with_code_block() {
    let tree = parse_tree(
        "
        walk ${ items.iter() } with i {
            Row (index: i)
        }
    ",
    )
    .unwrap();
    match tree.get_node() {
        DsNode::Iter(iter) => {
            assert!(iter.is_reactive(), "reactive walk must not be misparsed as code block");
        }
        other => panic!("expected reactive Iter, got {other:?}"),
    }
}

#[test]
fn reactive_match_with_dollar_expr_not_confused_with_code_block() {
    let tree = parse_tree(
        "
        match ${ state.get() } {
            State::Loading => { Spinner () }
            _ => { Content () }
        }
    ",
    )
    .unwrap();
    match tree.get_node() {
        DsNode::Match(m) => {
            assert!(m.is_reactive(), "reactive match must not be misparsed as code block");
        }
        other => panic!("expected reactive Match, got {other:?}"),
    }
}

#[test]
fn code_block_and_reactive_dollar_coexist() {
    let tree = parse_tree(
        "
        Widget {
            ${ let pad = 12; }
            if ${ visible.get() } {
                Child (padding: pad)
            }
        }
    ",
    )
    .unwrap();
    let kids = tree.get_children();
    assert_eq!(kids.len(), 2);
    assert!(matches!(kids[0].get_node(), DsNode::CodeBlock(_)));
    match kids[1].get_node() {
        DsNode::If(if_node) => assert!(if_node.is_reactive()),
        other => panic!("expected reactive If as sibling of CodeBlock, got {other:?}"),
    }
}

#[test]
fn parse_niche_inside_walk_body() {
    let tree = parse_tree(
        "
        walk items with it {
            @slot { Row (data: it) }
        }
    ",
    )
    .unwrap();
    assert!(matches!(tree.get_node(), DsNode::Iter(_)));
    let kids = tree.get_children();
    assert_eq!(kids.len(), 1);
    assert!(matches!(kids[0].get_node(), DsNode::Niche(_)));
}

#[test]
fn parse_code_block_inside_walk() {
    let tree = parse_tree(
        "
        walk items with i {
            ${ let key = i * 2; }
            Row (index: i)
        }
    ",
    )
    .unwrap();
    match tree.get_node() {
        DsNode::Iter(_) => {}
        other => panic!("expected Iter, got {other:?}"),
    }
    let kids = tree.get_children();
    assert_eq!(kids.len(), 2);
    assert!(matches!(kids[0].get_node(), DsNode::CodeBlock(_)));
    assert!(matches!(kids[1].get_node(), DsNode::Widget(_)));
}

#[test]
fn root_no_header_produces_unit_parent() {
    let root = parse_root("Widget (x: 1) {}").unwrap();
    assert!(root.get_context_attrs().is_empty());
    let s = token_string(root.get_parent());
    assert_eq!(s, "()", "no header → parent expr is unit");
}

#[test]
fn root_header_without_parent_attr() {
    let root = parse_root(":(world: w:) Widget {}").unwrap();
    assert_eq!(root.get_context_attrs().len(), 1);
    let s = token_string(root.get_parent());
    assert_eq!(s, "()", "header without parent attr falls back to unit");
}

#[test]
fn header_present_without_parent_attr() {
    let result = parse_root(":(foo: 123:) div {}");
    assert!(result.is_ok(), "unnamed parent attr is filled with unit");
    let root = result.unwrap();
    assert_eq!(root.get_context_attrs().len(), 1);
}

#[test]
fn parse_widget_no_braces() {
    let tree = parse_tree(r#"Image (path: "x.png")"#).unwrap();
    match tree.get_node() {
        DsNode::Widget(w) => {
            assert_eq!(w.get_name(), "Image");
            assert_eq!(w.get_attrs().attrs.len(), 1);
        }
        _ => panic!("Expected Widget"),
    }
    assert_eq!(tree.get_children().len(), 0);
}

#[test]
fn parse_widget_empty_braces_still_works() {
    let tree = parse_tree(r#"Image (path: "x.png") {}"#).unwrap();
    match tree.get_node() {
        DsNode::Widget(_) => {}
        _ => panic!("Expected Widget"),
    }
    assert_eq!(tree.get_children().len(), 0);
}

#[test]
fn error_if_without_body() {
    let result = parse_tree("if show_footer");
    assert!(result.is_err());
}

#[test]
fn error_walk_without_body() {
    let result = parse_tree("walk items with x");
    assert!(result.is_err());
}

#[test]
fn parse_niche_node() {
    let tree = parse_tree(r#"@header { Text (text: "hi") {} }"#).unwrap();
    match tree.get_node() {
        DsNode::Niche(n) => assert_eq!(n.get_name(), "header"),
        _ => panic!("Expected Niche node"),
    }
    assert_eq!(tree.get_children().len(), 1);
}

#[test]
fn parse_niche_multiple_children() {
    let tree = parse_tree(r#"@body { Text (text: "a") {} Text (text: "b") {} }"#).unwrap();
    match tree.get_node() {
        DsNode::Niche(_) => {}
        _ => panic!("Expected Niche"),
    }
    assert_eq!(tree.get_children().len(), 2);
}

#[test]
fn niche_without_body_is_a_bare_reference() {
    let tree = parse_tree("@header").expect("bare @name is legal");
    match tree.get_node() {
        DsNode::Niche(n) => {
            assert_eq!(n.get_name(), "header");
            assert!(!n.is_declaration(), "single-@ is a fill site, not a decl");
        }
        other => panic!("expected Niche, got {other:?}"),
    }
    assert!(tree.get_children().is_empty());
}

#[test]
fn parse_niche_declaration_bare() {
    let tree = parse_tree("@@header").expect("`@@name` parses");
    match tree.get_node() {
        DsNode::Niche(n) => {
            assert_eq!(n.get_name(), "header");
            assert!(n.is_declaration(), "double-@@ is a declaration");
        }
        other => panic!("expected Niche, got {other:?}"),
    }
    assert!(tree.get_children().is_empty());
}

#[test]
fn parse_niche_declaration_with_body() {
    let tree = parse_tree(r#"@@body { Text ("fallback") {} }"#).expect("`@@name { fallback }` parses");
    match tree.get_node() {
        DsNode::Niche(n) => {
            assert!(n.is_declaration());
            assert_eq!(n.get_name(), "body");
        }
        other => panic!("expected Niche, got {other:?}"),
    }
    assert_eq!(tree.get_children().len(), 1, "fallback body child preserved");
}

#[test]
fn niche_decl_and_fill_share_a_scope() {
    let tree = parse_tree(
        r#"
        Card () {
            @@header
            @body { Text ("hi") {} }
        }
    "#,
    )
    .expect("mixed decl + fill parses");
    let children = tree.get_children();
    assert_eq!(children.len(), 2, "two niche children");
    let d = match children[0].get_node() {
        DsNode::Niche(n) => n.is_declaration(),
        other => panic!("expected first child Niche, got {other:?}"),
    };
    let f = match children[1].get_node() {
        DsNode::Niche(n) => n.is_declaration(),
        other => panic!("expected second child Niche, got {other:?}"),
    };
    assert!(d, "first child is @@decl");
    assert!(!f, "second child is @fill");
}

#[test]
fn parse_match_node() {
    let tree = parse_tree(
        r#"
        match state {
            State::Loading => { Spinner () }
            State::Ready => { Content (text: "ok") }
        }
    "#,
    )
    .unwrap();
    match tree.get_node() {
        DsNode::Match(m) => {
            assert_eq!(m.get_arms().len(), 2);
        }
        _ => panic!("Expected Match node"),
    }
}

#[test]
fn parse_match_with_binding() {
    let tree = parse_tree(
        r#"
        match state {
            State::Ready(d) => { Content (text: "x") }
            _ => { Empty () }
        }
    "#,
    )
    .unwrap();
    match tree.get_node() {
        DsNode::Match(m) => {
            assert_eq!(m.get_arms().len(), 2);
            let arms = m.get_arms();
            assert_eq!(arms[0].get_children().len(), 1);
            assert_eq!(arms[1].get_children().len(), 1);
        }
        _ => panic!("Expected Match"),
    }
}

#[test]
fn error_match_without_body() {
    let result = parse_tree("match x");
    assert!(result.is_err());
}

#[test]
fn root_header_accepts_commas() {
    let result = parse_root(
        "
        :(
            parent: root,
            world: w,
        :)
        Foo {}
    ",
    );
    assert!(result.is_ok(), "trailing-comma form must parse");
}

#[test]
fn root_header_accepts_no_commas() {
    let result = parse_root(
        "
        :(
            parent: root
            world: w
        :)
        Foo {}
    ",
    );
    assert!(result.is_ok(), "no-comma form must still parse");
}

#[test]
fn form_c_on_after_attrs_before_body() {
    let tree = parse_tree(
        "
        Slider (min: 0, max: 100)
            on Tap { fire_a() }
            on ValueChanged(2) { fire_b() }
            {}
    ",
    )
    .unwrap();
    let widget = match tree.get_node() {
        DsNode::Widget(w) => w,
        _ => panic!("Expected Widget node"),
    };
    let handlers = widget.get_on_handlers();
    assert_eq!(handlers.len(), 2, "two on handlers in Form C");
    assert_eq!(handlers[0].get_name(), "Tap");
    assert_eq!(handlers[1].get_name(), "ValueChanged");
    assert_eq!(handlers[1].get_args().len(), 1);
}

#[test]
fn form_c_qualified_event_name() {
    let tree = parse_tree(
        "
        Slider (min: 0, max: 100)
            on Slider::ValueChanged { persist(*new) }
            {}
    ",
    )
    .unwrap();
    let widget = match tree.get_node() {
        DsNode::Widget(w) => w,
        _ => panic!("Expected Widget"),
    };
    let handlers = widget.get_on_handlers();
    assert_eq!(handlers.len(), 1);
    assert_eq!(handlers[0].get_qualifier().unwrap(), "Slider",);
    assert_eq!(handlers[0].get_name(), "ValueChanged");
}

#[test]
fn form_b_on_after_widget_body_at_root() {
    let tree = parse_tree("View () {} on Tap { fire() }").unwrap();
    let widget = match tree.get_node() {
        DsNode::Widget(w) => w,
        _ => panic!("Expected Widget"),
    };
    let handlers = widget.get_on_handlers();
    assert_eq!(handlers.len(), 1, "Form B: trailing on attaches to root widget");
    assert_eq!(handlers[0].get_name(), "Tap");
}

#[test]
fn form_b_chained_modifiers() {
    let tree = parse_tree(
        r#"
        Button (text: "x") {}
            on Tap { fire_a() }
            on LongPress { fire_b() }
    "#,
    )
    .unwrap();
    let widget = match tree.get_node() {
        DsNode::Widget(w) => w,
        _ => panic!("Expected Widget"),
    };
    let handlers = widget.get_on_handlers();
    assert_eq!(handlers.len(), 2, "Form B chain: two on modifiers attach to same widget");
    assert_eq!(handlers[0].get_name(), "Tap");
    assert_eq!(handlers[1].get_name(), "LongPress");
}

#[test]
fn form_b_inside_nested_body_attaches_to_previous_sibling() {
    let tree = parse_tree(
        "
        Container () {
            Child () {} on Tap { handle() }
        }
    ",
    )
    .unwrap();
    let container = match tree.get_node() {
        DsNode::Widget(w) => w,
        _ => panic!("Expected Container Widget"),
    };
    assert_eq!(container.get_on_handlers().len(), 0, "Container itself has no on handler");
    let children = tree.get_children();
    assert_eq!(children.len(), 1, "Container has one child Child");
    let child = match children[0].get_node() {
        DsNode::Widget(w) => w,
        _ => panic!("Expected Child Widget"),
    };
    assert_eq!(
        child.get_on_handlers().len(),
        1,
        "on attaches to nearest preceding sibling Child, not Container",
    );
}

#[test]
fn form_b_plus_c_mixed_on_same_widget() {
    let tree = parse_tree(
        "
        View ()
            on Tap { a() }
            {}
            on LongPress { b() }
    ",
    )
    .unwrap();
    let widget = match tree.get_node() {
        DsNode::Widget(w) => w,
        _ => panic!("Expected Widget"),
    };
    let handlers = widget.get_on_handlers();
    assert_eq!(handlers.len(), 2, "Form B + Form C handlers all stick");
    assert_eq!(handlers[0].get_name(), "Tap");
    assert_eq!(handlers[1].get_name(), "LongPress");
}

#[test]
fn error_form_a_on_inside_body_rejected() {
    let result = parse_tree(
        "
        View () {
            on Tap { fire() }
        }
    ",
    );
    assert!(
        result.is_err(),
        "Form A (on nested inside body without preceding sibling) must fail"
    );
}

#[test]
fn error_on_at_root_without_widget() {
    let result = parse_tree("on Tap { fire() }");
    assert!(result.is_err(), "bare `on` with no preceding widget must fail");
}

#[test]
fn error_form_c_no_body() {
    let tree = parse_tree("View () on Tap { fire() }").unwrap();
    let widget = match tree.get_node() {
        DsNode::Widget(w) => w,
        _ => panic!("Expected Widget"),
    };
    assert_eq!(widget.get_on_handlers().len(), 1);
    assert_eq!(
        tree.get_children().len(),
        0,
        "Form C without children body parses as widget with empty body"
    );
}

#[test]
fn error_on_no_braces_in_handler() {
    let result = parse_tree("View () on Tap call_me() {}");
    assert!(result.is_err(), "on EventKind without {{}} body must fail",);
}

#[test]
fn error_on_multi_qualifier_segment() {
    let result = parse_tree("View () on Foo::Bar::Baz { x() } {}");
    assert!(result.is_err(), "multi-segment qualifier must fail",);
}

#[test]
fn parse_if_else() {
    let tree = parse_tree(
        "
        if cond {
            a (height: 10) {}
        } else {
            b (height: 20) {}
        }
    ",
    )
    .unwrap();
    let else_b = tree.get_else_branch().expect("else branch present");
    assert!(matches!(else_b.get_node(), DsNode::Else), "terminal else is an Else node",);
}

#[test]
fn parse_if_elif_else_chain() {
    let tree = parse_tree(
        "
        if a {
            x (height: 10) {}
        } elif b {
            y (height: 10) {}
        } else {
            z (height: 10) {}
        }
    ",
    )
    .unwrap();
    let elif = tree.get_else_branch().expect("elif branch");
    assert!(matches!(elif.get_node(), DsNode::If(_)), "elif is an If node");
    let tail = elif.get_else_branch().expect("elif's else");
    assert!(matches!(tail.get_node(), DsNode::Else), "chain ends in Else");
}

#[test]
fn parse_reactive_if() {
    let tree = parse_tree(
        "
        if $cond {
            a (height: 10) {}
        }
    ",
    )
    .unwrap();
    match tree.get_node() {
        DsNode::If(n) => assert!(n.is_reactive(), "$ marks the if reactive"),
        _ => panic!("expected If node"),
    }
}

#[test]
fn parse_reactive_walk() {
    let tree = parse_tree(
        "
        walk $items with item {
            a (height: 10) {}
        }
    ",
    )
    .unwrap();
    match tree.get_node() {
        DsNode::Iter(n) => assert!(n.is_reactive(), "$ marks the walk reactive"),
        _ => panic!("expected Iter node"),
    }
}

#[test]
fn parse_walk_by_key() {
    let tree = parse_tree(
        "
        walk $items with item by item.id {
            a (height: 10) {}
        }
    ",
    )
    .unwrap();
    match tree.get_node() {
        DsNode::Iter(n) => {
            assert!(n.get_key().is_some(), "by clause captures a key expr");
        }
        _ => panic!("expected Iter node"),
    }
}

#[test]
fn parse_walk_without_by_has_no_key() {
    let tree = parse_tree(
        "
        walk items with item {
            a (height: 10) {}
        }
    ",
    )
    .unwrap();
    match tree.get_node() {
        DsNode::Iter(n) => assert!(n.get_key().is_none(), "no by clause -> no key"),
        _ => panic!("expected Iter node"),
    }
}

#[test]
fn parse_reactive_match() {
    let tree = parse_tree(
        "
        match $state {
            0 => { a (height: 10) {} }
            _ => { b (height: 10) {} }
        }
    ",
    )
    .unwrap();
    match tree.get_node() {
        DsNode::Match(n) => assert!(n.is_reactive(), "$ marks the match reactive"),
        _ => panic!("expected Match node"),
    }
}

#[test]
fn parse_reactive_attr() {
    let tree = parse_tree("a (bg_color: $signal, width: ${ pick(x.get()) }, height: 10) {}").unwrap();
    match tree.get_node() {
        DsNode::Widget(w) => {
            let attrs = &w.get_attrs().attrs;
            assert!(attrs[0].reactive, "$path attr is reactive");
            assert!(attrs[1].reactive, "${{block}} attr is reactive");
            assert!(!attrs[2].reactive, "bare attr is not reactive");
        }
        _ => panic!("expected Widget node"),
    }
}
