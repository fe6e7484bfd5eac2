//! What the formatter prints, stated over the tree's views. Rust
//! expressions and blocks are laid out by `prettyplease` inside a wrapper
//! function (named results of `crate::syntax`); the DSL around them is laid
//! out here, four spaces per nesting level.

use vstd::prelude::*;
use crate::text::{byte_len, first_index, join, last_index, text_lines, trim, trim_nl, trim_start};
use crate::layout::rebased;
use crate::syntax::{pretty_source, rust_single_expr_block, syn_file_marked, token_text};
use crate::token::{Delim, TokV};
use crate::ds_node::{ArmV, AttrV, NodeV, OnV, RootV, TreeV, WidgetV};

verus! {

broadcast use vstd::seq_lib::group_seq_properties;

/// The widest a single-line attribute list may make its line, in bytes.
pub const MAX_LINE_WIDTH: u128 = 100;

/// One nesting level.
pub open spec fn level() -> Seq<char> {
    seq![' ', ' ', ' ', ' ']
}

/// `indent` one level deeper.
pub open spec fn deeper(indent: Seq<char>) -> Seq<char> {
    indent + level()
}

/// Concatenation of all `parts`.
pub open spec fn concat(parts: Seq<Seq<char>>) -> Seq<char>
    decreases parts.len(),
{
    if parts.len() == 0 {
        Seq::empty()
    } else {
        concat(parts.drop_last()) + parts.last()
    }
}

/// The printed text of a token stream (nothing when a token does not lex).
pub open spec fn text_of(toks: Seq<TokV>) -> Seq<char> {
    match token_text(toks) {
        Some(t) => t,
        None => Seq::empty(),
    }
}

/// The printed text of the brace group `{ inner }`.
pub open spec fn brace_text(inner: Seq<TokV>) -> Seq<char> {
    text_of(seq![TokV::Group(Delim::Brace, inner)])
}

/// The wrapper function an expression is pretty-printed in.
pub open spec fn expr_wrapper(text: Seq<char>) -> Seq<char> {
    "fn __xrune_fmt_expr_wrapper() { "@ + text + " }"@
}

/// The wrapper function a block is pretty-printed as the body of.
pub open spec fn block_wrapper(text: Seq<char>) -> Seq<char> {
    "fn __xrune_fmt_block_wrapper() "@ + text
}

/// The lines between the first `{` and the last `}` of a pretty-printed
/// wrapper, outer newlines removed, each line `trim_end`ed.
pub open spec fn body_lines(formatted: Seq<char>) -> Option<Seq<Seq<char>>> {
    match (first_index(formatted, '{'), last_index(formatted, '}')) {
        (Some(open), Some(close)) => if close <= open {
            None
        } else {
            Some(text_lines(trim_nl(formatted.subrange(open + 1, close))))
        },
        _ => None,
    }
}

/// A non-block expression: its pretty-printed body, re-based under
/// `indent` past the first line; its plain token text when the wrapper does
/// not parse, holds syntax that `prettyplease` may not print, or does not
/// pretty-print.
pub open spec fn fmt_plain(toks: Seq<TokV>, indent: Seq<char>) -> Seq<char> {
    let t = text_of(toks);
    if syn_file_marked(expr_wrapper(t)) != Some(false) {
        t
    } else {
        fmt_plain_printed(t, indent)
    }
}

/// `fmt_plain` once the wrapper is known to be printable.
pub open spec fn fmt_plain_printed(t: Seq<char>, indent: Seq<char>) -> Seq<char> {
    match pretty_source(expr_wrapper(t)) {
        None => t,
        Some(f) => match body_lines(f) {
            None => t,
            Some(lines) => if lines.len() <= 1 || indent.len() == 0 {
                trim_start(join(lines, seq!['\n']))
            } else {
                rebased(lines, indent, true)
            },
        },
    }
}

/// A braced body pretty-printed as the body of the block wrapper: `{ }`
/// when empty, `{ line }` when it is one line, else one level under `indent`
/// with the closing brace at `indent`. `None` when the wrapper does not
/// parse, holds syntax that `prettyplease` may not print, or does not
/// pretty-print.
pub open spec fn wrapped_body(text: Seq<char>, indent: Seq<char>) -> Option<Seq<char>> {
    if syn_file_marked(block_wrapper(text)) != Some(false) {
        None
    } else {
        wrapped_body_printed(text, indent)
    }
}

/// `wrapped_body` once the wrapper is known to be printable.
pub open spec fn wrapped_body_printed(text: Seq<char>, indent: Seq<char>) -> Option<Seq<char>> {
    match pretty_source(block_wrapper(text)) {
        None => None,
        Some(f) => match body_lines(f) {
            None => None,
            Some(lines) => {
                let body = rebased(lines, deeper(indent), false);
                Some(
                    if body.len() == 0 {
                        "{ }"@
                    } else if !body.contains('\n') {
                        "{ "@ + trim(body) + " }"@
                    } else {
                        "{\n"@ + body + "\n"@ + indent + "}"@
                    },
                )
            },
        },
    }
}

/// A block `{ inner }` (a handler body, a block expression).
pub open spec fn fmt_block(inner: Seq<TokV>, indent: Seq<char>) -> Seq<char> {
    let t = brace_text(inner);
    match wrapped_body(t, indent) {
        Some(b) => b,
        None => t,
    }
}

/// A `${ tokens }` code block, after its `$`.
pub open spec fn fmt_code_block(tokens: Seq<TokV>, indent: Seq<char>) -> Seq<char> {
    match wrapped_body(brace_text(tokens), indent) {
        Some(b) => b,
        None => "{ "@ + text_of(tokens) + " }"@,
    }
}

/// An embedded Rust expression. A block holding one expression statement
/// that prints on one line stays inline as `{ expr }`; any other block is
/// laid out as a block; anything else goes through `fmt_plain`.
pub open spec fn fmt_expr(toks: Seq<TokV>, indent: Seq<char>) -> Seq<char>
    decreases toks,
{
    if toks.len() == 1 {
        match toks[0] {
            TokV::Group(d, inner) => if d == Delim::Brace {
                proof {
                    assert(decreases_to!(toks => toks[0]));
                }
                let one = fmt_expr(inner, indent);
                if rust_single_expr_block(inner) && !one.contains('\n') {
                    "{ "@ + one + " }"@
                } else {
                    fmt_block(inner, indent)
                }
            } else {
                fmt_plain(toks, indent)
            },
            _ => fmt_plain(toks, indent),
        }
    } else {
        fmt_plain(toks, indent)
    }
}

/// `$` when reactive.
pub open spec fn sigil(reactive: bool) -> Seq<char> {
    if reactive {
        "$"@
    } else {
        Seq::empty()
    }
}

/// One attribute as written in a list: `[name: ][$]value`.
pub open spec fn attr_text(a: AttrV, attr_indent: Seq<char>) -> Seq<char> {
    let v = sigil(a.reactive) + fmt_expr(a.value, attr_indent);
    match a.name {
        Some(n) => n + ": "@ + v,
        None => v,
    }
}

/// The texts of all attributes.
pub open spec fn attr_texts(attrs: Seq<AttrV>, attr_indent: Seq<char>) -> Seq<Seq<char>> {
    Seq::new(attrs.len(), |i: int| attr_text(attrs[i], attr_indent))
}

/// The attributes one per line under `attr_indent`, commas between.
pub open spec fn attr_lines(strs: Seq<Seq<char>>, attr_indent: Seq<char>) -> Seq<char> {
    concat(
        Seq::new(
            strs.len(),
            |i: int| attr_indent + strs[i] + (if i + 1 < strs.len() { ","@ } else { Seq::empty() }) + "\n"@,
        ),
    )
}

/// Was the list written over several lines?
pub open spec fn was_multiline(attrs: Seq<AttrV>) -> bool {
    attrs.last().last_line > attrs[0].first_line
}

/// A widget's attribute list after its name: `()` when empty; one line when
/// it was written on one line and the line stays within
/// `MAX_LINE_WIDTH`; else one attribute per line.
pub open spec fn attrs_text(attrs: Seq<AttrV>, indent: Seq<char>, name_len: nat) -> Seq<char> {
    if attrs.len() == 0 {
        "()"@
    } else {
        let strs = attr_texts(attrs, deeper(indent));
        let single = join(strs, ", "@);
        let total = byte_len(indent) + name_len + 1 + byte_len(single) + 1 + 3;
        if was_multiline(attrs) || total > MAX_LINE_WIDTH {
            "(\n"@ + attr_lines(strs, deeper(indent)) + indent + ")"@
        } else {
            "("@ + single + ")"@
        }
    }
}

/// A widget's `[ enchants ]`, one per line one level under `indent`.
pub open spec fn enchants_text(en: Seq<Seq<TokV>>, indent: Seq<char>) -> Seq<char> {
    if en.len() == 0 {
        Seq::empty()
    } else {
        " [\n"@ + concat(
            Seq::new(en.len(), |i: int| deeper(indent) + fmt_expr(en[i], deeper(indent)) + ",\n"@),
        ) + indent + "]"@
    }
}

/// A handler's `(args)`, nothing when it has none.
pub open spec fn args_text(args: Seq<Seq<TokV>>, indent: Seq<char>) -> Seq<char> {
    if args.len() == 0 {
        Seq::empty()
    } else {
        "("@ + join(Seq::new(args.len(), |i: int| fmt_expr(args[i], indent)), ", "@) + ")"@
    }
}

/// One handler: ` on [Q::]Name[(args)][ { body }]`.
pub open spec fn on_text(h: OnV, indent: Seq<char>) -> Seq<char> {
    " on "@ + (match h.qualifier {
        Some(q) => q + "::"@,
        None => Seq::empty(),
    }) + h.name + args_text(h.args, indent) + (match h.body {
        Some(b) => " "@ + fmt_block(b, indent),
        None => Seq::empty(),
    })
}

/// All handlers of a widget, on the widget's line.
pub open spec fn ons_text(hs: Seq<OnV>, indent: Seq<char>) -> Seq<char> {
    concat(Seq::new(hs.len(), |i: int| on_text(hs[i], indent)))
}

/// A widget's line(s) up to its children.
pub open spec fn widget_head(w: WidgetV, indent: Seq<char>) -> Seq<char> {
    indent + w.name + " "@ + attrs_text(w.attrs, indent, byte_len(w.name)) + enchants_text(
        w.enchants,
        indent,
    ) + ons_text(w.on_handlers, indent)
}

/// Children in braces: `{`, each child one level deeper, `}` at `indent`.
pub open spec fn braced(kids: Seq<char>, indent: Seq<char>) -> Seq<char> {
    "{\n"@ + kids + indent + "}"@
}

/// One tree, laid out at `indent`.
pub open spec fn tree_text(t: TreeV, indent: Seq<char>) -> Seq<char>
    decreases t,
{
    let ci = deeper(indent);
    match t.node {
        NodeV::Root(_) => children_text(t.children, indent),
        NodeV::Widget(w) => widget_head(w, indent) + if t.children.len() == 0 {
            "\n"@
        } else if w.on_handlers.len() > 0 {
            "\n"@ + indent + braced(children_text(t.children, ci), indent) + "\n"@
        } else {
            " "@ + braced(children_text(t.children, ci), indent) + "\n"@
        },
        NodeV::If { condition, reactive } => indent + "if "@ + sigil(reactive) + fmt_expr(
            condition,
            indent,
        ) + " "@ + braced(children_text(t.children, ci), indent) + else_text(
            t.else_branch,
            indent,
        ) + "\n"@,
        NodeV::Else => children_text(t.children, ci),
        NodeV::Iter { iterable, variable, reactive, key } => indent + "walk "@ + sigil(reactive)
            + fmt_expr(iterable, indent) + " with "@ + variable + (match key {
            Some(k) => " by "@ + fmt_expr(k, indent),
            None => Seq::empty(),
        }) + " "@ + braced(children_text(t.children, ci), indent) + "\n"@,
        NodeV::Niche { name, is_declaration } => indent + (if is_declaration {
            "@@"@
        } else {
            "@"@
        }) + name + if t.children.len() == 0 {
            "\n"@
        } else {
            " "@ + braced(children_text(t.children, ci), indent) + "\n"@
        },
        NodeV::Match { scrutinee, reactive, arms } => indent + "match "@ + sigil(reactive)
            + fmt_expr(scrutinee, indent) + " "@ + braced(arms_text(arms, ci), indent) + "\n"@,
        NodeV::CodeBlock { tokens, .. } => indent + "$"@ + fmt_code_block(tokens, indent) + "\n"@,
    }
}

/// Sibling trees, each laid out at `indent`.
pub open spec fn children_text(ts: Seq<TreeV>, indent: Seq<char>) -> Seq<char>
    decreases ts,
{
    if ts.len() == 0 {
        Seq::empty()
    } else {
        children_text(ts.drop_last(), indent) + tree_text(ts.last(), indent)
    }
}

/// The ` elif ... { }` / ` else { }` tail of an `if` whose braces sit at `indent`.
pub open spec fn else_text(eb: Option<Box<TreeV>>, indent: Seq<char>) -> Seq<char>
    decreases eb,
{
    match eb {
        None => Seq::empty(),
        Some(b) => match b.node {
            NodeV::If { condition, reactive } => " elif "@ + sigil(reactive) + fmt_expr(
                condition,
                indent,
            ) + " "@ + braced(children_text(b.children, deeper(indent)), indent) + else_text(
                b.else_branch,
                indent,
            ),
            _ => " else "@ + braced(children_text(b.children, deeper(indent)), indent),
        },
    }
}

/// The arms of a `match`, each at `indent`: `pattern => {`, its children
/// one level deeper, `}`.
pub open spec fn arms_text(arms: Seq<ArmV>, indent: Seq<char>) -> Seq<char>
    decreases arms,
{
    if arms.len() == 0 {
        Seq::empty()
    } else {
        let a = arms.last();
        arms_text(arms.drop_last(), indent) + indent + text_of(a.pat) + " => "@ + braced(
            children_text(a.children, deeper(indent)),
            indent,
        ) + "\n"@
    }
}

/// One header attribute line: `[name: ]value` (the value printed flat).
pub open spec fn header_line(a: AttrV, indent: Seq<char>) -> Seq<char> {
    indent + (match a.name {
        Some(n) => n + ": "@,
        None => Seq::empty(),
    }) + fmt_expr(a.value, Seq::empty()) + "\n"@
}

/// The `:( ... :)` header block, nothing when there are no context attributes.
pub open spec fn header_text(attrs: Seq<AttrV>, indent: Seq<char>) -> Seq<char> {
    if attrs.len() == 0 {
        Seq::empty()
    } else {
        indent + ":(\n"@ + concat(Seq::new(attrs.len(), |i: int| header_line(attrs[i], deeper(indent))))
            + indent + ":)\n\n"@
    }
}

/// A formatted `ui!` body: the header, then the content tree, one level
/// under `base_indent`.
pub open spec fn dsl_text(r: RootV, base_indent: Seq<char>) -> Seq<char> {
    header_text(r.context_attrs, deeper(base_indent)) + tree_text(r.content, deeper(base_indent))
}

} // verus!
