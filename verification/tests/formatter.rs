use xrune::tree_fmt::format_dsl;


    fn fmt(s: &str) -> String {
        format_dsl(s, "").unwrap()
    }

    const CTX: &str = "
:(
parent: parent
world: world
:)

";

    #[test]
    fn empty_header_produces_no_context_block() {
        let out = fmt("Widget {}");
        assert!(
            !out.contains(":("),
            "no context attrs → no `:( :)` header. got:\n{out}"
        );
    }

    #[test]
    fn multiline_code_block_preserves_lines() {
        let out = fmt(&format!(
            "{CTX}Widget {{ ${{
                let a = 1;
                let b = 2;
            }} @body }}"
        ));
        assert!(
            out.contains("${\n") && out.contains("let a = 1;") && out.contains("let b = 2;"),
            "multi-line ${{...}} keeps its structure. got:\n{out}"
        );
    }

    #[test]
    fn bare_niche_reference_stays_bare() {
        let out = fmt(&format!("{CTX}Card {{ @header @body }}"));
        assert!(
            out.contains("@header\n") && !out.contains("@header {"),
            "bare @name should not gain a body block. got:\n{out}"
        );
    }

    #[test]
    fn niche_with_body_keeps_braces() {
        let out = fmt(&format!("{CTX}Card {{ @header {{ Text (\"hi\") }} }}"));
        assert!(
            out.contains("@header {"),
            "@name with body keeps the block. got:\n{out}"
        );
    }

    #[test]
    fn niche_declaration_bare_prints_double_at() {
        let out = fmt(&format!("{CTX}Card {{ @@header @@body }}"));
        assert!(
            out.contains("@@header\n") && out.contains("@@body\n"),
            "@@decl should emit `@@name` bare, not `@name` or `@@name {{}}`. got:\n{out}"
        );
        assert!(
            !out.contains("@@header {"),
            "bare @@decl must not gain empty braces. got:\n{out}"
        );
    }

    #[test]
    fn niche_declaration_with_fallback_keeps_braces() {
        let out = fmt(&format!(
            "{CTX}Card {{ @@body {{ Text (\"fallback\") {{}} }} }}"
        ));
        assert!(
            out.contains("@@body {"),
            "@@decl with fallback body keeps the block. got:\n{out}"
        );
    }

    #[test]
    fn childless_node_omits_braces() {
        let out = fmt(&format!(
            "{CTX}Text (\"hi\") {{}}
"
        ));
        assert!(
            out.contains(
                "Text (\"hi\")
"
            ),
            "childless should drop braces, got:
{out}"
        );
        assert!(
            !out.contains("Text (\"hi\") {}"),
            "should not emit empty braces, got:
{out}"
        );
    }

    #[test]
    fn node_with_children_keeps_braces() {
        let out = fmt(&format!(
            "{CTX}Column (grow: 1.0) {{ Text (\"x\") {{}} }}
"
        ));
        assert!(
            out.contains(
                "Column (grow: 1.0) {
"
            ),
            "got:
{out}"
        );
        assert!(
            out.contains(
                "    }
"
            ),
            "closing brace, got:
{out}"
        );
    }

    #[test]
    fn on_handler_childless_no_trailing_braces() {
        let out = fmt(&format!(
            "{CTX}View (a: 1.0) on Tap {{ foo(); }} {{}}
"
        ));
        // on-handler present, no children -> no trailing {}
        assert!(
            !out.contains("} {}"),
            "on-handler childless should not emit trailing braces, got:
{out}"
        );
    }

    #[test]
    fn on_handler_with_children_indent_aligned() {
        let out = fmt(&format!(
            "{CTX}View (a: 1.0) on Tap {{ foo(); }} {{ Text (\"d\") {{}} }}
"
        ));
        // children { must NOT be "} {" glued; must align under the widget indent
        assert!(
            !out.contains(
                "} {
"
            ),
            "children brace should not glue to on-handler close, got:
{out}"
        );
        // child Text is childless -> no braces
        assert!(
            out.contains(
                "Text (\"d\")
"
            ),
            "nested childless drops braces, got:
{out}"
        );
    }

    #[test]
    fn on_handler_follows_enchant_close_same_line() {
        let out = fmt(&format!(
            "{CTX}View (a: 1.0) [ X ] on Tap {{ foo(); }} {{}}
"
        ));
        assert!(
            out.contains("] on Tap {"),
            "on must follow ] on same line, got:
{out}"
        );
        assert!(
            !out.contains(
                "]
                on Tap"
            ),
            "on must not start a new indented line, got:
{out}"
        );
    }

    #[test]
    fn on_handler_follows_attr_close_same_line() {
        let out = fmt(&format!(
            "{CTX}View (a: 1.0) on Tap {{ foo(); }} {{}}
"
        ));
        assert!(
            out.contains("View (a: 1.0) on Tap {"),
            "on must follow ) on same line, got:
{out}"
        );
    }

    #[test]
    fn multi_on_handlers_chain_same_line() {
        let out = fmt(&format!(
            "{CTX}View (a: 1.0) on DragMove {{ a(); }} on DragEnd {{ b(); }} {{}}
"
        ));
        assert!(
            out.contains("} on DragEnd {"),
            "second on must follow first close same line, got:
{out}"
        );
    }

    #[test]
    fn reactive_if_keeps_dollar() {
        let out = fmt(&format!("{CTX}if $cond {{ Text (\"x\") {{}} }}\n"));
        assert!(out.contains("if $cond"), "must keep $ sigil, got:\n{out}");
    }

    #[test]
    fn reactive_walk_and_match_keep_dollar() {
        let walk = fmt(&format!(
            "{CTX}walk $items with item {{ Text (\"x\") {{}} }}\n"
        ));
        assert!(walk.contains("walk $items"), "walk keeps $, got:\n{walk}");
        let m = fmt(&format!(
            "{CTX}match $state {{ 0 => {{ Text (\"x\") {{}} }} _ => {{ Text (\"y\") {{}} }} }}\n"
        ));
        assert!(m.contains("match $state"), "match keeps $, got:\n{m}");
    }

    #[test]
    fn if_elif_else_roundtrip() {
        let out = fmt(&format!(
            "{CTX}if a {{ Text (\"x\") {{}} }} elif b {{ Text (\"y\") {{}} }} else {{ Text (\"z\") {{}} }}\n"
        ));
        assert!(
            out.contains("elif b"),
            "keeps elif (not else if), got:\n{out}"
        );
        assert!(out.contains("} else {"), "keeps terminal else, got:\n{out}");
    }

    #[test]
    fn reactive_attr_keeps_dollar() {
        let path = fmt(&format!("{CTX}View (bg_color: $signal) {{}}\n"));
        assert!(
            path.contains("bg_color: $signal"),
            "bare $path attr keeps $, got:\n{path}"
        );
        let block = fmt(&format!(
            "{CTX}View (bg_color: ${{ pick(x.get()) }}) {{}}\n"
        ));
        assert!(
            block.contains("bg_color: ${"),
            "${{block}} attr keeps $ with no gap, got:\n{block}"
        );
    }

    #[test]
    fn reactive_walk_block_keeps_dollar() {
        let out = fmt(&format!(
            "{CTX}walk ${{ rows.iter() }} with item {{ Text (\"x\") {{}} }}\n"
        ));
        assert!(
            out.contains("walk ${"),
            "walk ${{block}} keeps $ with no gap, got:\n{out}"
        );
    }

    #[test]
    fn reactive_block_attr_preserves_nesting() {
        let out = fmt(&format!(
            "{CTX}Text (text: ${{ format!(\"value: {{}}   changes: {{}}   drags: {{}}\", s.get().last_value, s.get().changes, s.get().drags) }}, id: \"stats_label\", height: 30) {{}}\n"
        ));
        let format_line = out
            .lines()
            .find(|l| l.trim_start().starts_with("format!("))
            .unwrap_or_else(|| panic!("no format!( line, got:\n{out}"));
        let arg_line = out
            .lines()
            .find(|l| l.trim_start().starts_with("\"value:"))
            .unwrap_or_else(|| panic!("no arg line, got:\n{out}"));
        let lead = |l: &str| l.len() - l.trim_start().len();
        assert!(
            lead(arg_line) > lead(format_line),
            "args must be deeper than format!(, got:\n{out}"
        );
        // The `${` block body sits exactly one level (4) under its `text: ${`
        // attr line — not two, which is the const-wrapper over-indent bug.
        let attr_line = out
            .lines()
            .find(|l| l.trim_start().starts_with("text: ${"))
            .unwrap_or_else(|| panic!("no `text: ${{` line, got:\n{out}"));
        assert_eq!(
            lead(format_line),
            lead(attr_line) + 4,
            "format!( must be one level under the attr, not over-indented, got:\n{out}"
        );
    }

    #[test]
    fn walk_by_key_roundtrips() {
        let out = fmt(&format!(
            "{CTX}walk $items with item by item.id {{ Text (\"x\") {{}} }}\n"
        ));
        assert!(
            out.contains("with item by item.id"),
            "walk keeps the `by <key>` clause, got:\n{out}"
        );
    }

    #[test]
    fn nested_call_enchant_keeps_relative_nesting() {
        let out = fmt(&format!(
            "{CTX}Column (grow: 1.0) [ GaussRadius(Tween::new(Fixed::from_int(0), Fixed::from_int(3), MS, ease::lin, PlayMode::PingPong).into()) ] {{ Text (\"x\") {{}} }}\n"
        ));
        let lead = |needle: &str| {
            let l = out
                .lines()
                .find(|l| l.trim_start().starts_with(needle))
                .unwrap_or_else(|| panic!("no `{needle}` line, got:\n{out}"));
            l.len() - l.trim_start().len()
        };
        assert_eq!(
            lead("Tween::new("),
            lead("GaussRadius(") + 4,
            "inner call one level under outer, got:\n{out}"
        );
        assert!(
            lead("Fixed::from_int(0)") > lead("Tween::new("),
            "call args deeper than the call, got:\n{out}"
        );
    }

    #[test]
    fn short_walk_block_stays_inline() {
        let out = fmt(&format!(
            "{CTX}walk ${{ rows.get() }} with card {{ Text (\"x\") {{}} }}\n"
        ));
        assert!(
            out.contains("walk ${ rows.get() } with card"),
            "a short ${{ block }} iterable stays on one line, got:\n{out}"
        );
    }

    #[test]
    fn multiline_walk_block_iterable_indents_under_walk() {
        // Long enough that prettyplease wraps the iterable across lines.
        let out = fmt(&format!(
            "{CTX}walk ${{ really_long_source_name.get().iter().filter(|row| row.is_enabled && row.visible).cloned().collect::<alloc::vec::Vec<_>>() }} with card {{ Text (\"x\") {{}} }}\n"
        ));
        let walk_lead = out
            .lines()
            .find(|l| l.trim_start() == "walk ${")
            .map(|l| l.len() - l.trim_start().len())
            .unwrap_or_else(|| panic!("expected multi-line `walk ${{`, got:\n{out}"));
        let body = out
            .lines()
            .find(|l| l.trim_start().starts_with("really_long_source_name"))
            .unwrap_or_else(|| panic!("no iterable body line, got:\n{out}"));
        let body_lead = body.len() - body.trim_start().len();
        assert!(
            body_lead > walk_lead,
            "wrapped iterable body indents under walk, not column 0, got:\n{out}"
        );
    }

#[test]
fn verbatim_expression_keeps_its_token_text() {
    let out = fmt("Widget (a: become f()) {}");
    assert!(out.contains("(a: become f ())"), "got:\n{out}");
}

#[test]
fn macro_rules_code_block_keeps_its_token_text() {
    let out = fmt("Widget { ${ macro_rules! m { x } } }");
    assert!(out.contains("macro_rules"), "got:\n{out}");
}

#[test]
fn ordinary_code_block_is_still_pretty_printed() {
    let out = fmt("Widget { ${ let a=1; } }");
    assert!(out.contains("let a = 1;"), "got:\n{out}");
}
