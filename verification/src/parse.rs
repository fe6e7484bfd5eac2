//! The executable parser: each function computes the grammar function of
//! the same name in `grammar`, on the same tokens.

use vstd::prelude::*;
use crate::token::{Delim, Tok, TokV, tok_lines, toks_v, toks_clone, toks_range, is_word, is_ident, is_punct, is_punct2, is_group, ident_text, dsl_keyword};
use crate::ds_node::{AttrV, OnV, ArmV, TreeV, DsAttr, DsOn, DsWidget, DsAttrs, DsIf, DsIter, DsNiche, DsMatch, DsMatchArm, DsCodeBlock, DsNode, DsTree, attrs_v, exprs_v, ons_v, arms_v, trees_v, lemma_trees_v, lemma_trees_v_push, lemma_arms_v_push, lemma_tree_v, attr_v, on_v, tree_v, widget_v};
use crate::grammar;
use crate::grammar::DsError;
use crate::syntax::{expr_rest_in, block_ok, pat_ok};

verus! {

broadcast use vstd::seq_lib::group_seq_properties;

// ---------------------------------------------------------------- agreement of results

pub open spec fn agrees<T: View>(r: Result<(T, usize), DsError>, g: Result<(T::V, int), DsError>) -> bool {
    match (r, g) {
        (Ok((x, p)), Ok((v, q))) => x@ == v && p as int == q,
        (Err(a), Err(b)) => a == b,
        _ => false,
    }
}

pub open spec fn agrees_pos(r: Result<usize, DsError>, g: Result<int, DsError>) -> bool {
    match (r, g) {
        (Ok(p), Ok(q)) => p as int == q,
        (Err(a), Err(b)) => a == b,
        _ => false,
    }
}

pub open spec fn agrees_reactive(
    r: Result<(bool, usize, usize), DsError>,
    g: Result<(bool, int, int), DsError>,
) -> bool {
    match (r, g) {
        (Ok((x, a, b)), Ok((y, c, d))) => x == y && a as int == c && b as int == d,
        (Err(a), Err(b)) => a == b,
        _ => false,
    }
}

pub open spec fn agrees_attrs(r: Result<Vec<DsAttr>, DsError>, g: Result<Seq<AttrV>, DsError>) -> bool {
    match (r, g) {
        (Ok(v), Ok(w)) => attrs_v(v@) == w,
        (Err(a), Err(b)) => a == b,
        _ => false,
    }
}

pub open spec fn agrees_exprs(r: Result<Vec<Vec<Tok>>, DsError>, g: Result<Seq<Seq<TokV>>, DsError>) -> bool {
    match (r, g) {
        (Ok(v), Ok(w)) => exprs_v(v@) == w,
        (Err(a), Err(b)) => a == b,
        _ => false,
    }
}

pub open spec fn agrees_trees(r: Result<Vec<DsTree>, DsError>, g: Result<Seq<TreeV>, DsError>) -> bool {
    match (r, g) {
        (Ok(v), Ok(w)) => trees_v(v@) == w,
        (Err(a), Err(b)) => a == b,
        _ => false,
    }
}

pub open spec fn agrees_arms(r: Result<Vec<DsMatchArm>, DsError>, g: Result<Seq<ArmV>, DsError>) -> bool {
    match (r, g) {
        (Ok(v), Ok(w)) => arms_v(v@) == w,
        (Err(a), Err(b)) => a == b,
        _ => false,
    }
}

pub open spec fn ends_within<T>(r: Result<(T, usize), DsError>, pos: int, len: int) -> bool {
    r matches Ok((_, e)) ==> pos < e <= len
}

// ---------------------------------------------------------------- leaves

pub(crate) fn expr_end(s: &[Tok], pos: usize, allow_struct: bool) -> (r: Result<usize, DsError>)
    requires
        pos <= s@.len(),
    ensures
        agrees_pos(r, grammar::expr_end(s@, pos as int, allow_struct)),
        r matches Ok(e) ==> pos < e <= s@.len(),
{
    match expr_rest_in(s, pos, s.len(), allow_struct) {
        Some(rest) => if rest < s.len() - pos {
            Ok(s.len() - rest)
        } else {
            Err(DsError::Rust)
        },
        None => Err(DsError::Rust),
    }
}

fn block_at(s: &[Tok], i: usize) -> (r: bool)
    ensures
        r == grammar::block_at(s@, i as int),
{
    if i < s.len() {
        match &s[i] {
            Tok::Group { delim, inner, .. } => *delim == Delim::Brace && block_ok(inner.as_slice()),
            _ => false,
        }
    } else {
        false
    }
}

fn reactive_expr(s: &[Tok], pos: usize, allow_struct: bool) -> (r: Result<(bool, usize, usize), DsError>)
    requires
        pos <= s@.len(),
    ensures
        agrees_reactive(r, grammar::reactive_expr(s@, pos as int, allow_struct)),
        r matches Ok((_, a, b)) ==> pos <= a < b <= s@.len(),
{
    if is_punct(s, pos, '$') {
        if is_group(s, pos + 1, Delim::Brace) {
            if block_at(s, pos + 1) {
                Ok((true, pos + 1, pos + 2))
            } else {
                Err(DsError::Rust)
            }
        } else {
            match expr_end(s, pos + 1, allow_struct) {
                Ok(e) => Ok((true, pos + 1, e)),
                Err(x) => Err(x),
            }
        }
    } else {
        match expr_end(s, pos, allow_struct) {
            Ok(e) => Ok((false, pos, e)),
            Err(x) => Err(x),
        }
    }
}

pub(crate) fn attr(s: &[Tok], pos: usize) -> (r: Result<(DsAttr, usize), DsError>)
    requires
        pos < s@.len(),
    ensures
        agrees(r, grammar::attr(s@, pos as int)),
        ends_within(r, pos as int, s@.len() as int),
{
    let named = is_ident(s, pos) && is_punct(s, pos + 1, ':') && !is_punct2(s, pos + 1, ':', ':');
    let vstart = if named {
        pos + 2
    } else {
        pos
    };
    match reactive_expr(s, vstart, true) {
        Ok((rv, a, b)) => {
            let name = if named {
                Some(ident_text(s, pos))
            } else {
                None
            };
            let value = toks_range(s, a, b);
            let first_line = if named {
                tok_lines(&s[pos]).start
            } else {
                tok_lines(&s[a]).start
            };
            let last_line = tok_lines(&s[b - 1]).end;
            let at = DsAttr {
                name: name,
                value: value,
                reactive: rv,
                first_line: first_line,
                last_line: last_line,
            };
            assert(at@ == grammar::attr(s@, pos as int)->Ok_0.0);
            Ok((at, b))
        },
        Err(e) => Err(e),
    }
}

pub(crate) fn attr_list(s: &[Tok], header: bool) -> (r: Result<Vec<DsAttr>, DsError>)
    ensures
        agrees_attrs(r, grammar::attr_list(s@, 0, Seq::empty(), header)),
{
    let mut acc: Vec<DsAttr> = Vec::new();
    let mut pos: usize = 0;
    assert(attrs_v(acc@) =~= Seq::<AttrV>::empty());
    while pos < s.len()
        invariant
            pos <= s@.len(),
            grammar::attr_list(s@, 0, Seq::empty(), header) == grammar::attr_list(
                s@,
                pos as int,
                attrs_v(acc@),
                header,
            ),
        decreases s@.len() - pos,
    {
        let (a, p) = match attr(s, pos) {
            Ok(x) => x,
            Err(e) => {
                return Err(e);
            },
        };
        let p1 = if is_punct(s, p, ',') {
            p + 1
        } else {
            p
        };
        let p2 = if header && is_punct(s, p1, ':') {
            p1 + 1
        } else {
            p1
        };
        let ghost before = acc@;
        acc.push(a);
        assert(attrs_v(acc@) =~= attrs_v(before).push(attr_v(a)));
        pos = p2;
    }
    Ok(acc)
}

pub(crate) fn attrs_at(s: &[Tok], pos: usize) -> (r: Result<(Vec<DsAttr>, usize), DsError>)
    requires
        pos <= s@.len(),
    ensures
        match (r, grammar::attrs_at(s@, pos as int)) {
            (Ok((v, p)), Ok((w, q))) => attrs_v(v@) == w && p as int == q,
            (Err(a), Err(b)) => a == b,
            _ => false,
        },
        r matches Ok((_, p)) ==> pos <= p <= s@.len(),
{
    if pos < s.len() {
        match &s[pos] {
            Tok::Group { delim, inner, .. } => if *delim == Delim::Paren {
                match attr_list(inner.as_slice(), false) {
                    Ok(a) => {
                        return Ok((a, pos + 1));
                    },
                    Err(e) => {
                        return Err(e);
                    },
                }
            },
            _ => {},
        }
    }
    let v: Vec<DsAttr> = Vec::new();
    assert(attrs_v(v@) =~= Seq::<AttrV>::empty());
    Ok((v, pos))
}

fn expr_list(s: &[Tok]) -> (r: Result<Vec<Vec<Tok>>, DsError>)
    ensures
        agrees_exprs(r, grammar::expr_list(s@, 0, Seq::empty())),
{
    let mut acc: Vec<Vec<Tok>> = Vec::new();
    let mut pos: usize = 0;
    assert(exprs_v(acc@) =~= Seq::<Seq<TokV>>::empty());
    while pos < s.len()
        invariant
            pos <= s@.len(),
            grammar::expr_list(s@, 0, Seq::empty()) == grammar::expr_list(
                s@,
                pos as int,
                exprs_v(acc@),
            ),
        decreases s@.len() - pos,
    {
        let e = match expr_end(s, pos, true) {
            Ok(e) => e,
            Err(x) => {
                return Err(x);
            },
        };
        let item = toks_range(s, pos, e);
        let ghost before = acc@;
        acc.push(item);
        assert(exprs_v(acc@) =~= exprs_v(before).push(toks_v(s@.subrange(pos as int, e as int))));
        if e >= s.len() {
            return Ok(acc);
        } else if is_punct(s, e, ',') {
            pos = e + 1;
        } else {
            return Err(DsError::Expected);
        }
    }
    Ok(acc)
}

fn enchants_at(s: &[Tok], pos: usize) -> (r: Result<(Vec<Vec<Tok>>, usize), DsError>)
    requires
        pos <= s@.len(),
    ensures
        match (r, grammar::enchants_at(s@, pos as int)) {
            (Ok((v, p)), Ok((w, q))) => exprs_v(v@) == w && p as int == q,
            (Err(a), Err(b)) => a == b,
            _ => false,
        },
        r matches Ok((_, p)) ==> pos <= p <= s@.len(),
{
    if pos < s.len() {
        match &s[pos] {
            Tok::Group { delim, inner, .. } => if *delim == Delim::Bracket {
                match expr_list(inner.as_slice()) {
                    Ok(a) => {
                        return Ok((a, pos + 1));
                    },
                    Err(e) => {
                        return Err(e);
                    },
                }
            },
            _ => {},
        }
    }
    let v: Vec<Vec<Tok>> = Vec::new();
    assert(exprs_v(v@) =~= Seq::<Seq<TokV>>::empty());
    Ok((v, pos))
}

fn on_handler(s: &[Tok], pos: usize) -> (r: Result<(DsOn, usize), DsError>)
    requires
        s@.len() <= usize::MAX,
        pos < s@.len(),
    ensures
        agrees(r, grammar::on_handler(s@, pos as int)),
        ends_within(r, pos as int, s@.len() as int),
{
    let p = pos + 1;
    if !is_ident(s, p) {
        return Err(DsError::Expected);
    }
    let qualified = is_punct2(s, p + 1, ':', ':');
    if qualified && !is_ident(s, p + 3) {
        return Err(DsError::Expected);
    }
    let qualifier = if qualified {
        Some(ident_text(s, p))
    } else {
        None
    };
    let name = if qualified {
        ident_text(s, p + 3)
    } else {
        ident_text(s, p)
    };
    let q = if qualified {
        p + 4
    } else {
        p + 1
    };
    let has_args = is_group(s, q, Delim::Paren);
    let mut args: Vec<Vec<Tok>> = Vec::new();
    assert(exprs_v(args@) =~= Seq::<Seq<TokV>>::empty());
    if has_args {
        match &s[q] {
            Tok::Group { inner, .. } => {
                match expr_list(inner.as_slice()) {
                    Ok(a) => {
                        args = a;
                    },
                    Err(e) => {
                        return Err(e);
                    },
                }
            },
            _ => {},
        }
    }
    let r = if has_args {
        q + 1
    } else {
        q
    };
    let (body, end) = if is_group(s, r, Delim::Brace) {
        if block_at(s, r) {
            match &s[r] {
                Tok::Group { inner, .. } => (Some(toks_clone(inner.as_slice())), r + 1),
                _ => (None, r + 1),
            }
        } else {
            return Err(DsError::Rust);
        }
    } else if has_args {
        (None, r)
    } else {
        return Err(DsError::Expected);
    };
    let h = DsOn { qualifier: qualifier, name: name, args: args, body: body };
    assert(h@ == grammar::on_handler(s@, pos as int)->Ok_0.0);
    Ok((h, end))
}

fn on_list(s: &[Tok], pos: usize) -> (r: Result<(Vec<DsOn>, usize), DsError>)
    requires
        pos <= s@.len(),
    ensures
        match (r, grammar::on_list(s@, pos as int, Seq::empty())) {
            (Ok((v, p)), Ok((w, q))) => ons_v(v@) == w && p as int == q,
            (Err(a), Err(b)) => a == b,
            _ => false,
        },
        r matches Ok((_, p)) ==> pos <= p <= s@.len(),
{
    let mut acc: Vec<DsOn> = Vec::new();
    let mut p: usize = pos;
    assert(ons_v(acc@) =~= Seq::<OnV>::empty());
    while is_word(s, p, "on")
        invariant
            pos <= p <= s@.len(),
            grammar::on_list(s@, pos as int, Seq::empty()) == grammar::on_list(
                s@,
                p as int,
                ons_v(acc@),
            ),
        decreases s@.len() - p,
    {
        let (h, e) = match on_handler(s, p) {
            Ok(x) => x,
            Err(x) => {
                return Err(x);
            },
        };
        let ghost before = acc@;
        acc.push(h);
        assert(ons_v(acc@) =~= ons_v(before).push(on_v(h)));
        p = e;
    }
    Ok((acc, p))
}

fn widget(s: &[Tok], pos: usize) -> (r: Result<(DsWidget, usize), DsError>)
    requires
        s@.len() <= usize::MAX,
        pos < s@.len(),
        s@[pos as int] is Ident,
    ensures
        agrees(r, grammar::widget(s@, pos as int)),
        ends_within(r, pos as int, s@.len() as int),
{
    let (attrs, p1) = match attrs_at(s, pos + 1) {
        Ok(x) => x,
        Err(e) => {
            return Err(e);
        },
    };
    let (en, p2) = match enchants_at(s, p1) {
        Ok(x) => x,
        Err(e) => {
            return Err(e);
        },
    };
    let (hs, p3) = match on_list(s, p2) {
        Ok(x) => x,
        Err(e) => {
            return Err(e);
        },
    };
    let w = DsWidget {
        name: ident_text(s, pos),
        attrs: DsAttrs { attrs: attrs },
        enchants: en,
        on_handlers: hs,
    };
    assert(w@ == grammar::widget(s@, pos as int)->Ok_0.0);
    Ok((w, p3))
}

fn niche(s: &[Tok], pos: usize) -> (r: Result<(DsNode, usize), DsError>)
    requires
        s@.len() <= usize::MAX,
        pos < s@.len(),
    ensures
        agrees(r, grammar::niche(s@, pos as int)),
        ends_within(r, pos as int, s@.len() as int),
{
    let decl = is_punct(s, pos + 1, '@');
    let p = if decl {
        pos + 2
    } else {
        pos + 1
    };
    if is_ident(s, p) {
        Ok((DsNode::Niche(DsNiche { name: ident_text(s, p), is_declaration: decl }), p + 1))
    } else {
        Err(DsError::Expected)
    }
}

fn if_head(s: &[Tok], pos: usize) -> (r: Result<(DsNode, usize), DsError>)
    requires
        s@.len() <= usize::MAX,
        pos < s@.len(),
    ensures
        agrees(r, grammar::if_head(s@, pos as int)),
        ends_within(r, pos as int, s@.len() as int),
{
    match reactive_expr(s, pos + 1, false) {
        Err(e) => Err(e),
        Ok((rv, a, b)) => Ok(
            (DsNode::If(DsIf { condition: toks_range(s, a, b), reactive: rv }), b),
        ),
    }
}

fn first_brace(s: &[Tok], i: usize) -> (r: usize)
    requires
        i <= s@.len(),
    ensures
        r as int == grammar::first_brace(s@, i as int),
        i <= r <= s@.len(),
{
    let mut j: usize = i;
    while j < s.len() && !is_group(s, j, Delim::Brace)
        invariant
            i <= j <= s@.len(),
            grammar::first_brace(s@, i as int) == grammar::first_brace(s@, j as int),
        decreases s@.len() - j,
    {
        j = j + 1;
    }
    j
}

fn walk_head(s: &[Tok], pos: usize) -> (r: Result<(DsNode, usize), DsError>)
    requires
        s@.len() <= usize::MAX,
        pos < s@.len(),
    ensures
        agrees(r, grammar::walk_head(s@, pos as int)),
        ends_within(r, pos as int, s@.len() as int),
{
    let (rv, a, b) = match reactive_expr(s, pos + 1, true) {
        Ok(x) => x,
        Err(e) => {
            return Err(e);
        },
    };
    if !is_word(s, b, "with") || !is_ident(s, b + 1) {
        return Err(DsError::Expected);
    }
    let variable = ident_text(s, b + 1);
    let iterable = toks_range(s, a, b);
    let p = b + 2;
    if is_word(s, p, "by") {
        let q = first_brace(s, p + 1);
        if expr_rest_in(s, p + 1, q, true) == Some(0usize) {
            let key = toks_range(s, p + 1, q);
            Ok(
                (
                    DsNode::Iter(
                        DsIter { iterable: iterable, variable: variable, reactive: rv, key: Some(key) },
                    ),
                    q,
                ),
            )
        } else {
            Err(DsError::Rust)
        }
    } else {
        Ok(
            (
                DsNode::Iter(DsIter { iterable: iterable, variable: variable, reactive: rv, key: None }),
                p,
            ),
        )
    }
}

fn find_arrow(s: &[Tok], i: usize) -> (r: usize)
    requires
        i <= s@.len(),
    ensures
        r as int == grammar::find_arrow(s@, i as int),
        i <= r <= s@.len(),
{
    let mut j: usize = i;
    while j < s.len() && !is_punct2(s, j, '=', '>')
        invariant
            i <= j <= s@.len(),
            grammar::find_arrow(s@, i as int) == grammar::find_arrow(s@, j as int),
        decreases s@.len() - j,
    {
        j = j + 1;
    }
    j
}

// ---------------------------------------------------------------- recursive structure

fn node(s: &[Tok], pos: usize) -> (r: Result<(DsNode, usize), DsError>)
    requires
        pos < s@.len(),
    ensures
        agrees(r, grammar::node(s@, pos as int)),
        ends_within(r, pos as int, s@.len() as int),
    decreases s@, s@.len() - pos, 4int,
{
    if is_punct(s, pos, '$') && is_group(s, pos + 1, Delim::Brace) {
        match &s[pos + 1] {
            Tok::Group { inner, source, .. } => {
                let src = match source {
                    Some(t) => Some(t.clone()),
                    None => None,
                };
                Ok((DsNode::CodeBlock(DsCodeBlock { tokens: toks_clone(inner.as_slice()), source_text: src }), pos + 2))
            },
            _ => Err(DsError::Expected),
        }
    } else if is_punct(s, pos, '@') {
        niche(s, pos)
    } else if is_word(s, pos, "match") {
        match_node(s, pos)
    } else if is_ident(s, pos) && !dsl_keyword(ident_text(s, pos).as_slice()) {
        match widget(s, pos) {
            Ok((w, p)) => Ok((DsNode::Widget(w), p)),
            Err(e) => Err(e),
        }
    } else if is_word(s, pos, "if") {
        if_head(s, pos)
    } else if is_word(s, pos, "walk") {
        walk_head(s, pos)
    } else if is_word(s, pos, "on") {
        Err(DsError::OnWithoutWidget)
    } else {
        Err(DsError::Expected)
    }
}

fn match_node(s: &[Tok], pos: usize) -> (r: Result<(DsNode, usize), DsError>)
    requires
        s@.len() <= usize::MAX,
        pos < s@.len(),
    ensures
        agrees(r, grammar::match_node(s@, pos as int)),
        ends_within(r, pos as int, s@.len() as int),
    decreases s@, s@.len() - pos, 3int,
{
    let (rv, a, b) = match reactive_expr(s, pos + 1, false) {
        Ok(x) => x,
        Err(e) => {
            return Err(e);
        },
    };
    if !is_group(s, b, Delim::Brace) {
        return Err(DsError::Expected);
    }
    match &s[b] {
        Tok::Group { inner, .. } => {
            assert(decreases_to!(s@ => s@[b as int]));
            match arms(inner.as_slice()) {
                Err(e) => Err(e),
                Ok(arm_list) => Ok(
                    (
                        DsNode::Match(
                            DsMatch { scrutinee: toks_range(s, a, b), reactive: rv, arms: arm_list },
                        ),
                        b + 1,
                    ),
                ),
            }
        },
        _ => Err(DsError::Expected),
    }
}

fn arms(s: &[Tok]) -> (r: Result<Vec<DsMatchArm>, DsError>)
    ensures
        agrees_arms(r, grammar::arms(s@, 0, Seq::empty())),
    decreases s@, s@.len(), 7int,
{
    let mut acc: Vec<DsMatchArm> = Vec::new();
    let mut pos: usize = 0;
    assert(arms_v(acc@) =~= Seq::<ArmV>::empty());
    while pos < s.len()
        invariant
            pos <= s@.len(),
            grammar::arms(s@, 0, Seq::empty()) == grammar::arms(s@, pos as int, arms_v(acc@)),
        decreases s@.len() - pos,
    {
        let j = find_arrow(s, pos);
        proof {
            grammar::lemma_find_arrow(s@, pos as int);
        }
        if j >= s.len() {
            return Err(DsError::Expected);
        }
        let pat = toks_range(s, pos, j);
        if !pat_ok(pat.as_slice()) {
            return Err(DsError::Rust);
        }
        if !is_group(s, j + 2, Delim::Brace) {
            return Err(DsError::Expected);
        }
        let kids = match &s[j + 2] {
            Tok::Group { inner, .. } => {
                assert(decreases_to!(s@ => s@[j + 2]));
                match children(inner.as_slice()) {
                    Ok(k) => k,
                    Err(e) => {
                        return Err(e);
                    },
                }
            },
            _ => {
                return Err(DsError::Expected);
            },
        };
        let p = j + 3;
        let p2 = if is_punct(s, p, ',') {
            p + 1
        } else {
            p
        };
        let arm = DsMatchArm { pat: pat, children: kids };
        let ghost before = acc@;
        acc.push(arm);
        proof {
            lemma_arms_v_push(before, arm);
        }
        pos = p2;
    }
    Ok(acc)
}

fn with_handler(t: DsTree, h: DsOn) -> (r: DsTree)
    ensures
        r@ == grammar::with_handler(t@, h@),
{
    let DsTree { node, children, else_branch } = t;
    match node {
        DsNode::Widget(w) => {
            let ghost wv = widget_v(w);
            proof {
                lemma_tree_v(t);
            }
            let DsWidget { name, attrs, enchants, on_handlers } = w;
            let mut hs = on_handlers;
            let ghost before = hs@;
            hs.push(h);
            assert(ons_v(hs@) =~= ons_v(before).push(on_v(h)));
            let nw = DsWidget { name, attrs, enchants, on_handlers: hs };
            assert(widget_v(nw) == crate::ds_node::WidgetV { on_handlers: wv.on_handlers.push(on_v(h)), ..wv });
            let r = DsTree { node: DsNode::Widget(nw), children, else_branch };
            proof {
                lemma_tree_v(r);
            }
            r
        },
        other => {
            let r = DsTree { node: other, children, else_branch };
            proof {
                lemma_tree_v(t);
                lemma_tree_v(r);
            }
            r
        },
    }
}

fn tree_ons(s: &[Tok], pos: usize, t: DsTree) -> (r: Result<(DsTree, usize), DsError>)
    requires
        pos <= s@.len(),
    ensures
        agrees(r, grammar::tree_ons(s@, pos as int, t@)),
        r matches Ok((_, e)) ==> pos <= e <= s@.len(),
{
    let mut cur = t;
    let mut p: usize = pos;
    while is_word(s, p, "on")
        invariant
            pos <= p <= s@.len(),
            grammar::tree_ons(s@, pos as int, t@) == grammar::tree_ons(s@, p as int, cur@),
        decreases s@.len() - p,
    {
        let (h, e) = match on_handler(s, p) {
            Ok(x) => x,
            Err(x) => {
                return Err(x);
            },
        };
        let is_widget = match &cur.node {
            DsNode::Widget(_) => true,
            _ => false,
        };
        proof {
            lemma_tree_v(cur);
        }
        if !is_widget {
            return Err(DsError::OnNotWidget);
        }
        cur = with_handler(cur, h);
        p = e;
    }
    Ok((cur, p))
}

pub(crate) fn tree(s: &[Tok], pos: usize) -> (r: Result<(DsTree, usize), DsError>)
    requires
        pos < s@.len(),
    ensures
        agrees(r, grammar::tree(s@, pos as int)),
        r matches Ok((_, e)) ==> pos < e <= s@.len(),
    decreases s@, s@.len() - pos, 5int,
{
    let (n, p) = match node(s, pos) {
        Ok(x) => x,
        Err(e) => {
            return Err(e);
        },
    };
    let is_if = match &n {
        DsNode::If(_) => true,
        _ => false,
    };
    let needs_body = match &n {
        DsNode::If(_) => true,
        DsNode::Iter(_) => true,
        _ => false,
    };
    let braced = is_group(s, p, Delim::Brace);
    if (needs_body || braced) && !braced {
        return Err(DsError::Expected);
    }
    let mut kids: Vec<DsTree> = Vec::new();
    assert(trees_v(kids@) =~= Seq::<TreeV>::empty());
    if braced {
        match &s[p] {
            Tok::Group { inner, .. } => {
                assert(decreases_to!(s@ => s@[p as int]));
                match children(inner.as_slice()) {
                    Ok(k) => {
                        kids = k;
                    },
                    Err(e) => {
                        return Err(e);
                    },
                }
            },
            _ => {},
        }
    }
    let q = if braced {
        p + 1
    } else {
        p
    };
    let (eb, rpos) = if is_if {
        match else_chain(s, q) {
            Ok(x) => x,
            Err(e) => {
                return Err(e);
            },
        }
    } else {
        (None, q)
    };
    let t = DsTree { node: n, children: kids, else_branch: eb };
    tree_ons(s, rpos, t)
}

fn else_chain(s: &[Tok], q: usize) -> (r: Result<(Option<Box<DsTree>>, usize), DsError>)
    requires
        q <= s@.len(),
    ensures
        match (r, grammar::else_chain(s@, q as int)) {
            (Ok((b, p)), Ok((c, e))) => p as int == e && match (b, c) {
                (Some(x), Some(y)) => tree_v(*x) == *y,
                (None, None) => true,
                _ => false,
            },
            (Err(a), Err(b)) => a == b,
            _ => false,
        },
        r matches Ok((_, e)) ==> q <= e <= s@.len(),
    decreases s@, s@.len() - q, 2int,
{
    if is_word(s, q, "elif") {
        let (rv, a, b) = match reactive_expr(s, q + 1, false) {
            Ok(x) => x,
            Err(e) => {
                return Err(e);
            },
        };
        if !is_group(s, b, Delim::Brace) {
            return Err(DsError::Expected);
        }
        let kids = match &s[b] {
            Tok::Group { inner, .. } => {
                assert(decreases_to!(s@ => s@[b as int]));
                match children(inner.as_slice()) {
                    Ok(k) => k,
                    Err(e) => {
                        return Err(e);
                    },
                }
            },
            _ => {
                return Err(DsError::Expected);
            },
        };
        let (rest, end) = match else_chain(s, b + 1) {
            Ok(x) => x,
            Err(e) => {
                return Err(e);
            },
        };
        let t = DsTree {
            node: DsNode::If(DsIf { condition: toks_range(s, a, b), reactive: rv }),
            children: kids,
            else_branch: rest,
        };
        proof {
            lemma_tree_v(t);
        }
        Ok((Some(Box::new(t)), end))
    } else if is_word(s, q, "else") {
        if !is_group(s, q + 1, Delim::Brace) {
            return Err(DsError::Expected);
        }
        let kids = match &s[q + 1] {
            Tok::Group { inner, .. } => {
                assert(decreases_to!(s@ => s@[q + 1]));
                match children(inner.as_slice()) {
                    Ok(k) => k,
                    Err(e) => {
                        return Err(e);
                    },
                }
            },
            _ => {
                return Err(DsError::Expected);
            },
        };
        let t = DsTree { node: DsNode::Else, children: kids, else_branch: None };
        proof {
            lemma_tree_v(t);
        }
        Ok((Some(Box::new(t)), q + 2))
    } else {
        Ok((None, q))
    }
}

fn children(s: &[Tok]) -> (r: Result<Vec<DsTree>, DsError>)
    ensures
        agrees_trees(r, grammar::children(s@, 0, Seq::empty())),
    decreases s@, s@.len(), 6int,
{
    let mut acc: Vec<DsTree> = Vec::new();
    let mut pos: usize = 0;
    assert(trees_v(acc@) =~= Seq::<TreeV>::empty());
    while pos < s.len()
        invariant
            pos <= s@.len(),
            grammar::children(s@, 0, Seq::empty()) == grammar::children(s@, pos as int, trees_v(acc@)),
        decreases s@.len() - pos,
    {
        if is_word(s, pos, "on") {
            let (h, p) = match on_handler(s, pos) {
                Ok(x) => x,
                Err(e) => {
                    return Err(e);
                },
            };
            proof {
                lemma_trees_v(acc@);
            }
            if acc.len() == 0 {
                return Err(DsError::OnWithoutWidget);
            }
            let ghost before = acc@;
            let last = acc.pop().unwrap();
            let is_widget = match &last.node {
                DsNode::Widget(_) => true,
                _ => false,
            };
            proof {
                lemma_tree_v(last);
            }
            if !is_widget {
                return Err(DsError::OnNotWidget);
            }
            let updated = with_handler(last, h);
            acc.push(updated);
            proof {
                lemma_trees_v(before);
                lemma_trees_v(acc@);
                assert(acc@ =~= before.update(before.len() - 1, updated));
                assert(trees_v(acc@) =~= trees_v(before).update(
                    before.len() - 1,
                    grammar::with_handler(trees_v(before).last(), on_v(h)),
                ));
            }
            pos = p;
        } else {
            let (t, p) = match tree(s, pos) {
                Ok(x) => x,
                Err(e) => {
                    return Err(e);
                },
            };
            let ghost before = acc@;
            acc.push(t);
            proof {
                lemma_trees_v_push(before, t);
            }
            pos = p;
        }
    }
    Ok(acc)
}

} // verus!
