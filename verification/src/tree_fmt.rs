//! Laying out the tree: every node kind at its indent, its children one
//! level deeper, and the whole `ui!` body with its `:( ... :)` header.

use vstd::prelude::*;
use crate::text::{chars_of, push_all, push_str, string_of};
use crate::token::{Tok, toks_f, toks_v};
use crate::lex::lexed;
use crate::ds_node::{DsIf, DsIter, DsMatch, DsMatchArm, DsNiche, DsNode, DsRoot, DsTree, DsWidget, DsAttr, NodeV, node_v, opt_toks_v, arms_v, attrs_v, tree_v, trees_v, lemma_tree_v, lemma_trees_v, lemma_arms_v_push};
use crate::fmt_expr::{deeper_of, fmt_code_block, fmt_expr, tok_text};
use crate::format::{byte_count, format_attrs, format_enchants, format_ons, lemma_concat_take};
use crate::fmt_spec;
use crate::fmt_spec::{children_text, concat, deeper, tree_text};
use crate::grammar;

verus! {

broadcast use vstd::seq_lib::group_seq_properties;

/// Sibling trees at `indent` (`children_text`).
fn format_children(kids: &[DsTree], indent: &[char], out: &mut Vec<char>)
    ensures
        final(out)@ == old(out)@ + children_text(trees_v(kids@), indent@),
    decreases kids@, 0int,
{
    let ghost tv = trees_v(kids@);
    let ghost start = out@;
    proof {
        lemma_trees_v(kids@);
    }
    let mut i: usize = 0;
    while i < kids.len()
        invariant
            i <= kids@.len(),
            tv == trees_v(kids@),
            tv.len() == kids@.len(),
            forall|j: int| 0 <= j < kids@.len() ==> #[trigger] tv[j] == tree_v(kids@[j]),
            out@ == start + children_text(tv.take(i as int), indent@),
        decreases kids@.len() - i,
    {
        assert(decreases_to!(kids@ => kids@[i as int]));
        format_tree(&kids[i], indent, out);
        proof {
            assert(tv.take(i + 1).drop_last() =~= tv.take(i as int));
        }
        assert(out@ =~= start + children_text(tv.take(i + 1), indent@));
        i = i + 1;
    }
    assert(tv.take(kids@.len() as int) =~= tv);
}

/// Children in braces after a head: `{`, the children one level deeper,
/// `}` at `indent`.
fn format_braced(kids: &[DsTree], indent: &[char], out: &mut Vec<char>)
    ensures
        final(out)@ == old(out)@ + fmt_spec::braced(children_text(trees_v(kids@), deeper(indent@)), indent@),
    decreases kids@, 1int,
{
    let ghost start = out@;
    let ci = deeper_of(indent);
    push_str(out, "{\n");
    format_children(kids, ci.as_slice(), out);
    push_all(out, indent);
    push_str(out, "}");
    assert(out@ =~= start + fmt_spec::braced(children_text(trees_v(kids@), deeper(indent@)), indent@));
}

/// A widget's head: indent, name, attributes, enchants, handlers.
fn format_widget_head(w: &DsWidget, indent: &[char], out: &mut Vec<char>)
    ensures
        final(out)@ == old(out)@ + fmt_spec::widget_head(w@, indent@),
{
    let ghost start = out@;
    push_all(out, indent);
    push_all(out, w.name.as_slice());
    push_str(out, " ");
    let nl = byte_count(w.name.as_slice());
    format_attrs(w.attrs.attrs.as_slice(), indent, nl, out);
    format_enchants(w.enchants.as_slice(), indent, out);
    format_ons(w.on_handlers.as_slice(), indent, out);
    assert(out@ =~= start + fmt_spec::widget_head(w@, indent@));
}

/// A widget node.
fn format_widget(tree: &DsTree, w: &DsWidget, indent: &[char], out: &mut Vec<char>)
    requires
        tree.node == DsNode::Widget(*w),
    ensures
        final(out)@ == old(out)@ + tree_text(tree@, indent@),
    decreases tree, 1int,
{
    proof {
        lemma_tree_v(*tree);
        lemma_trees_v(tree.children@);
    }
    let ghost start = out@;
    format_widget_head(w, indent, out);
    let ghost kids = children_text(trees_v(tree.children@), deeper(indent@));
    assert(tree_text(tree@, indent@) == fmt_spec::widget_head(w@, indent@) + if tree.children@.len() == 0 {
        "\n"@
    } else if w.on_handlers@.len() > 0 {
        "\n"@ + indent@ + fmt_spec::braced(kids, indent@) + "\n"@
    } else {
        " "@ + fmt_spec::braced(kids, indent@) + "\n"@
    });
    if tree.children.len() == 0 {
        push_str(out, "\n");
    } else if w.on_handlers.len() > 0 {
        push_str(out, "\n");
        push_all(out, indent);
        format_braced(tree.children.as_slice(), indent, out);
        push_str(out, "\n");
    } else {
        push_str(out, " ");
        format_braced(tree.children.as_slice(), indent, out);
        push_str(out, "\n");
    }
    assert(out@ =~= start + tree_text(tree@, indent@));
}

/// The `elif` / `else` tail of an `if` (`else_text`).
fn format_else(eb: &Option<Box<DsTree>>, indent: &[char], out: &mut Vec<char>)
    ensures
        final(out)@ == old(out)@ + fmt_spec::else_text(
            match *eb {
                Some(b) => Some(Box::new(tree_v(*b))),
                None => None,
            },
            indent@,
        ),
    decreases *eb, 0int,
{
    match eb {
        None => {
            assert(out@ =~= old(out)@ + Seq::<char>::empty());
        },
        Some(b) => {
            proof {
                lemma_tree_v(**b);
            }
            let ghost start = out@;
            match &b.node {
                DsNode::If(c) => {
                    push_str(out, " elif ");
                    if c.reactive {
                        push_str(out, "$");
                    }
                    let e = fmt_expr(c.condition.as_slice(), indent);
                    push_all(out, e.as_slice());
                    push_str(out, " ");
                    format_braced(b.children.as_slice(), indent, out);
                    format_else(&b.else_branch, indent, out);
                },
                _ => {
                    push_str(out, " else ");
                    format_braced(b.children.as_slice(), indent, out);
                },
            }
            assert(out@ =~= start + fmt_spec::else_text(Some(Box::new(tree_v(**b))), indent@));
        },
    }
}

/// An `if` node with its chain.
fn format_if(tree: &DsTree, c: &DsIf, indent: &[char], out: &mut Vec<char>)
    requires
        tree.node == DsNode::If(*c),
    ensures
        final(out)@ == old(out)@ + tree_text(tree@, indent@),
    decreases tree, 1int,
{
    proof {
        lemma_tree_v(*tree);
    }
    let ghost start = out@;
    push_all(out, indent);
    push_str(out, "if ");
    if c.reactive {
        push_str(out, "$");
    }
    let e = fmt_expr(c.condition.as_slice(), indent);
    push_all(out, e.as_slice());
    push_str(out, " ");
    format_braced(tree.children.as_slice(), indent, out);
    format_else(&tree.else_branch, indent, out);
    push_str(out, "\n");
    assert(out@ =~= start + tree_text(tree@, indent@));
}

/// The head of a `walk` node, up to its braces.
spec fn iter_head(n: NodeV, indent: Seq<char>) -> Seq<char> {
    match n {
        NodeV::Iter { iterable, variable, reactive, key } => indent + "walk "@ + fmt_spec::sigil(
            reactive,
        ) + fmt_spec::fmt_expr(iterable, indent) + " with "@ + variable + (match key {
            Some(k) => " by "@ + fmt_spec::fmt_expr(k, indent),
            None => Seq::empty(),
        }),
        _ => Seq::empty(),
    }
}

proof fn lemma_iter_text(t: DsTree, it: DsIter, indent: Seq<char>)
    requires
        t.node == DsNode::Iter(it),
    ensures
        tree_text(tree_v(t), indent) == iter_head(node_v(t.node), indent) + " "@ + fmt_spec::braced(
            children_text(trees_v(t.children@), deeper(indent)),
            indent,
        ) + "\n"@,
        node_v(t.node) == (NodeV::Iter {
            iterable: toks_v(it.iterable@),
            variable: it.variable@,
            reactive: it.reactive,
            key: opt_toks_v(it.key),
        }),
{
    lemma_tree_v(t);
}

/// A `walk` node.
fn format_iter(tree: &DsTree, it: &DsIter, indent: &[char], out: &mut Vec<char>)
    requires
        tree.node == DsNode::Iter(*it),
    ensures
        final(out)@ == old(out)@ + tree_text(tree@, indent@),
    decreases tree, 1int,
{
    proof {
        lemma_iter_text(*tree, *it, indent@);
    }
    let ghost start = out@;
    push_all(out, indent);
    push_str(out, "walk ");
    if it.reactive {
        push_str(out, "$");
    }
    let e = fmt_expr(it.iterable.as_slice(), indent);
    push_all(out, e.as_slice());
    push_str(out, " with ");
    push_all(out, it.variable.as_slice());
    match &it.key {
        Some(k) => {
            push_str(out, " by ");
            let ke = fmt_expr(k.as_slice(), indent);
            push_all(out, ke.as_slice());
        },
        None => {},
    }
    let ghost head = out@;
    assert(head =~= start + iter_head(node_v(tree.node), indent@));
    push_str(out, " ");
    format_braced(tree.children.as_slice(), indent, out);
    push_str(out, "\n");
    assert(out@ =~= start + tree_text(tree@, indent@));
}

/// An `@name` / `@@name` node.
fn format_niche(tree: &DsTree, n: &DsNiche, indent: &[char], out: &mut Vec<char>)
    requires
        tree.node == DsNode::Niche(*n),
    ensures
        final(out)@ == old(out)@ + tree_text(tree@, indent@),
    decreases tree, 1int,
{
    proof {
        lemma_tree_v(*tree);
        lemma_trees_v(tree.children@);
    }
    let ghost start = out@;
    push_all(out, indent);
    if n.is_declaration {
        push_str(out, "@@");
    } else {
        push_str(out, "@");
    }
    push_all(out, n.name.as_slice());
    if tree.children.len() == 0 {
        push_str(out, "\n");
    } else {
        push_str(out, " ");
        format_braced(tree.children.as_slice(), indent, out);
        push_str(out, "\n");
    }
    assert(out@ =~= start + tree_text(tree@, indent@));
}

/// The arms of a `match` at `indent` (`arms_text`).
fn format_arms(arms: &[DsMatchArm], indent: &[char], out: &mut Vec<char>)
    ensures
        final(out)@ == old(out)@ + fmt_spec::arms_text(arms_v(arms@), indent@),
    decreases arms@, 2int,
{
    let ghost start = out@;
    let mut i: usize = 0;
    while i < arms.len()
        invariant
            i <= arms@.len(),
            out@ == start + fmt_spec::arms_text(arms_v(arms@.take(i as int)), indent@),
        decreases arms@.len() - i,
    {
        assert(decreases_to!(arms@ => arms@[i as int]));
        let arm = &arms[i];
        push_all(out, indent);
        let p = tok_text(arm.pat.as_slice());
        push_all(out, p.as_slice());
        push_str(out, " => ");
        format_braced(arm.children.as_slice(), indent, out);
        push_str(out, "\n");
        proof {
            assert(arms@.take(i + 1) =~= arms@.take(i as int).push(arms@[i as int]));
            lemma_arms_v_push(arms@.take(i as int), arms@[i as int]);
            assert(arms_v(arms@.take(i + 1)).drop_last() =~= arms_v(arms@.take(i as int)));
        }
        assert(out@ =~= start + fmt_spec::arms_text(arms_v(arms@.take(i + 1)), indent@));
        i = i + 1;
    }
    assert(arms@.take(arms@.len() as int) =~= arms@);
}

/// A `match` node.
fn format_match(tree: &DsTree, m: &DsMatch, indent: &[char], out: &mut Vec<char>)
    requires
        tree.node == DsNode::Match(*m),
    ensures
        final(out)@ == old(out)@ + tree_text(tree@, indent@),
    decreases tree, 1int,
{
    proof {
        lemma_tree_v(*tree);
    }
    let ghost start = out@;
    push_all(out, indent);
    push_str(out, "match ");
    if m.reactive {
        push_str(out, "$");
    }
    let e = fmt_expr(m.scrutinee.as_slice(), indent);
    push_all(out, e.as_slice());
    push_str(out, " ");
    let ci = deeper_of(indent);
    push_str(out, "{\n");
    format_arms(m.arms.as_slice(), ci.as_slice(), out);
    push_all(out, indent);
    push_str(out, "}");
    push_str(out, "\n");
    assert(out@ =~= start + tree_text(tree@, indent@));
}

/// One tree at `indent` (`tree_text`).
fn format_tree(tree: &DsTree, indent: &[char], out: &mut Vec<char>)
    ensures
        final(out)@ == old(out)@ + tree_text(tree@, indent@),
    decreases tree, 2int,
{
    proof {
        lemma_tree_v(*tree);
    }
    match &tree.node {
        DsNode::Root(_) => {
            format_children(tree.children.as_slice(), indent, out);
        },
        DsNode::Widget(w) => {
            format_widget(tree, w, indent, out);
        },
        DsNode::If(c) => {
            format_if(tree, c, indent, out);
        },
        DsNode::Else => {
            let ci = deeper_of(indent);
            format_children(tree.children.as_slice(), ci.as_slice(), out);
        },
        DsNode::Iter(it) => {
            format_iter(tree, it, indent, out);
        },
        DsNode::Niche(n) => {
            format_niche(tree, n, indent, out);
        },
        DsNode::Match(m) => {
            format_match(tree, m, indent, out);
        },
        DsNode::CodeBlock(c) => {
            let ghost start = out@;
            let t = fmt_code_block(c.tokens.as_slice(), indent);
            push_all(out, indent);
            push_str(out, "$");
            push_all(out, t.as_slice());
            push_str(out, "\n");
            assert(out@ =~= start + tree_text(tree@, indent@));
        },
    }
}


/// The `:( ... :)` header (`header_text`).
fn format_header(attrs: &[DsAttr], indent: &[char], out: &mut Vec<char>)
    ensures
        final(out)@ == old(out)@ + fmt_spec::header_text(attrs_v(attrs@), indent@),
{
    let ghost av = attrs_v(attrs@);
    if attrs.len() == 0 {
        assert(out@ =~= old(out)@ + fmt_spec::header_text(av, indent@));
        return;
    }
    let ci = deeper_of(indent);
    let flat: Vec<char> = Vec::new();
    assert(flat@ =~= Seq::<char>::empty());
    let ghost parts = Seq::new(av.len(), |i: int| fmt_spec::header_line(av[i], ci@));
    let ghost start = out@;
    push_all(out, indent);
    push_str(out, ":(\n");
    let ghost opened = out@;
    let mut i: usize = 0;
    while i < attrs.len()
        invariant
            i <= attrs@.len(),
            av == attrs_v(attrs@),
            flat@ == Seq::<char>::empty(),
            parts == Seq::new(av.len(), |i: int| fmt_spec::header_line(av[i], ci@)),
            out@ == opened + concat(parts.take(i as int)),
        decreases attrs@.len() - i,
    {
        let ghost before = out@;
        let a = &attrs[i];
        push_all(out, ci.as_slice());
        match &a.name {
            Some(n) => {
                push_all(out, n.as_slice());
                push_str(out, ": ");
            },
            None => {},
        }
        let e = fmt_expr(a.value.as_slice(), flat.as_slice());
        push_all(out, e.as_slice());
        push_str(out, "\n");
        proof {
            lemma_concat_take(parts, i as int);
        }
        assert(out@ =~= before + parts[i as int]);
        i = i + 1;
    }
    assert(parts.take(av.len() as int) =~= parts);
    push_all(out, indent);
    push_str(out, ":)\n\n");
    assert(out@ =~= start + fmt_spec::header_text(av, indent@));
}

/// A parsed `ui!` body laid out under `base_indent` (`dsl_text`).
pub fn format_root(root: &DsRoot, base_indent: &[char]) -> (r: Vec<char>)
    ensures
        r@ == fmt_spec::dsl_text(root@, base_indent@),
{
    let indent1 = deeper_of(base_indent);
    let mut out: Vec<char> = Vec::new();
    format_header(root.context_attrs.as_slice(), indent1.as_slice(), &mut out);
    format_tree(&root.content, indent1.as_slice(), &mut out);
    assert(out@ =~= fmt_spec::dsl_text(root@, base_indent@));
    out
}

/// Format a tokenized `ui!` body: parse it, then lay it out under
/// `base_indent`; `None` when it does not parse.
pub fn format_tokens(tokens: &[Tok], base_indent: &str) -> (r: Option<String>)
    ensures
        match grammar::root(tokens@) {
            Ok(v) => r matches Some(s) && s@ == fmt_spec::dsl_text(v, base_indent@),
            Err(_) => r is None,
        },
{
    match DsRoot::parse(tokens) {
        Ok(root) => {
            let base = chars_of(base_indent);
            let out = format_root(&root, base.as_slice());
            Some(string_of(out.as_slice()))
        },
        Err(_) => None,
    }
}


/// Format xrune DSL source (the inside of `ui! { ... }`): lex it, parse it,
/// lay it out under `base_indent`. `None` when it does not lex or parse.
/// What comes out is the layout of the body parsed from the token trees
/// that the input lexes to, their lines and source texts included.
pub fn format_dsl(input: &str, base_indent: &str) -> (r: Option<String>)
    ensures
        lexed(input@) is None ==> r is None,
        r matches Some(s) ==> exists|t: Seq<Tok>|
            #![trigger grammar::root(t)]
            toks_f(t) == lexed(input@)->0 && (grammar::root(t) matches Ok(v) && s@
                == fmt_spec::dsl_text(v, base_indent@)),
        r is None ==> lexed(input@) is None || exists|t: Seq<Tok>|
            #![trigger grammar::root(t)]
            toks_f(t) == lexed(input@)->0 && grammar::root(t) is Err,
{
    let toks = match crate::lex::lex(input) {
        Some(t) => t,
        None => {
            return None;
        },
    };
    let r = format_tokens(toks.as_slice(), base_indent);
    proof {
        let t = toks@;
        if r is Some {
            assert(grammar::root(t) is Ok);
        } else {
            assert(grammar::root(t) is Err);
        }
    }
    r
}

} // verus!
