//! The DSL grammar, stated over the token model: what a `ui!` body parses
//! to, and which error refuses it. The executable parser is proved to
//! compute exactly these functions.

use vstd::prelude::*;
use crate::token::{Delim, Tok, TokV, toks_v, lines_of, at_word, at_ident, at_punct, at_punct2, at_group, is_dsl_keyword};
use crate::ds_node::{AttrV, OnV, WidgetV, ArmV, NodeV, TreeV, RootV};
use crate::syntax::{rust_expr_rest, rust_pat_ok, rust_block_ok};

verus! {

broadcast use vstd::seq_lib::group_seq_properties;

/// Why a body is refused.
#[derive(PartialEq, Eq, Structural, Clone, Copy, Debug)]
pub enum DsError {
    /// A DSL token is missing or out of place.
    Expected,
    /// `syn` refuses an embedded Rust expression, pattern or block.
    Rust,
    /// An `on` handler with no widget before it.
    OnWithoutWidget,
    /// An `on` handler after an `if` / `walk` / `match` / `@niche` / code block.
    OnNotWidget,
    /// A `:( ... :)` header with several attributes on one line.
    HeaderOneLine,
    /// Tokens left after the content tree.
    Unexpected,
}

/// The text of an identifier token (empty for any other token).
pub open spec fn ident_of(t: Tok) -> Seq<char> {
    match t {
        Tok::Ident { text, .. } => text@,
        _ => Seq::empty(),
    }
}

/// The tokens inside a group (empty for any other token).
pub open spec fn inner_of(t: Tok) -> Seq<Tok> {
    match t {
        Tok::Group { inner, .. } => inner@,
        _ => Seq::empty(),
    }
}

/// The tokens `s[a..b]`, as values.
pub open spec fn span_v(s: Seq<Tok>, a: int, b: int) -> Seq<TokV> {
    toks_v(s.subrange(a, b))
}

/// The unit expression `()`.
pub open spec fn unit_v() -> Seq<TokV> {
    seq![TokV::Group(Delim::Paren, Seq::empty())]
}

/// End of the Rust expression that starts at `s[pos]`.
pub open spec fn expr_end(s: Seq<Tok>, pos: int, allow_struct: bool) -> Result<int, DsError> {
    if pos < 0 || pos > s.len() {
        Err(DsError::Rust)
    } else {
        match rust_expr_rest(span_v(s, pos, s.len() as int), allow_struct) {
            Some(r) => if (r as int) < s.len() - pos {
                Ok(s.len() - r)
            } else {
                Err(DsError::Rust)
            },
            None => Err(DsError::Rust),
        }
    }
}

/// `s[i]` is a brace group whose statements `syn` accepts.
pub open spec fn block_at(s: Seq<Tok>, i: int) -> bool {
    at_group(s, i, Delim::Brace) && rust_block_ok(toks_v(inner_of(s[i])))
}

/// An expression that may carry the reactive `$` sigil: `$path`, `${ block }`
/// or a plain expression. The result is (reactive, start, end) of the
/// expression's tokens.
pub open spec fn reactive_expr(s: Seq<Tok>, pos: int, allow_struct: bool) -> Result<
    (bool, int, int),
    DsError,
> {
    if at_punct(s, pos, '$') {
        if at_group(s, pos + 1, Delim::Brace) {
            if block_at(s, pos + 1) {
                Ok((true, pos + 1, pos + 2))
            } else {
                Err(DsError::Rust)
            }
        } else {
            match expr_end(s, pos + 1, allow_struct) {
                Ok(e) => Ok((true, pos + 1, e)),
                Err(x) => Err(x),
            }
        }
    } else {
        match expr_end(s, pos, allow_struct) {
            Ok(e) => Ok((false, pos, e)),
            Err(x) => Err(x),
        }
    }
}

/// `name: value` starts at `s[pos]` (a `:` that is not the start of `::`).
pub open spec fn named_attr_at(s: Seq<Tok>, pos: int) -> bool {
    at_ident(s, pos) && at_punct(s, pos + 1, ':') && !at_punct2(s, pos + 1, ':', ':')
}

/// One attribute at `s[pos]`.
pub open spec fn attr(s: Seq<Tok>, pos: int) -> Result<(AttrV, int), DsError> {
    let named = named_attr_at(s, pos);
    let vstart = if named {
        pos + 2
    } else {
        pos
    };
    match reactive_expr(s, vstart, true) {
        Ok((r, a, b)) => Ok(
            (
                AttrV {
                    name: if named {
                        Some(ident_of(s[pos]))
                    } else {
                        None
                    },
                    value: span_v(s, a, b),
                    reactive: r,
                    first_line: if named {
                        lines_of(s[pos]).start
                    } else {
                        lines_of(s[a]).start
                    },
                    last_line: lines_of(s[b - 1]).end,
                },
                b,
            ),
        ),
        Err(e) => Err(e),
    }
}

/// Attributes from `s[pos]` to the end of `s`, each optionally followed by
/// `,` (and, in a header, by `:`), appended to `acc`.
pub open spec fn attr_list(s: Seq<Tok>, pos: int, acc: Seq<AttrV>, header: bool) -> Result<
    Seq<AttrV>,
    DsError,
>
    decreases s.len() - pos,
{
    if pos < 0 || pos >= s.len() {
        Ok(acc)
    } else {
        match attr(s, pos) {
            Err(e) => Err(e),
            Ok((a, p)) => {
                let p1 = if at_punct(s, p, ',') {
                    p + 1
                } else {
                    p
                };
                let p2 = if header && at_punct(s, p1, ':') {
                    p1 + 1
                } else {
                    p1
                };
                attr_list(s, p2, acc.push(a), header)
            },
        }
    }
}

/// A widget's optional `( attrs )`.
pub open spec fn attrs_at(s: Seq<Tok>, pos: int) -> Result<(Seq<AttrV>, int), DsError> {
    if at_group(s, pos, Delim::Paren) {
        match attr_list(inner_of(s[pos]), 0, Seq::empty(), false) {
            Ok(a) => Ok((a, pos + 1)),
            Err(e) => Err(e),
        }
    } else {
        Ok((Seq::empty(), pos))
    }
}

/// Comma-separated expressions filling `s` from `pos`, a trailing comma
/// allowed, appended to `acc`.
pub open spec fn expr_list(s: Seq<Tok>, pos: int, acc: Seq<Seq<TokV>>) -> Result<
    Seq<Seq<TokV>>,
    DsError,
>
    decreases s.len() - pos,
{
    if pos < 0 || pos >= s.len() {
        Ok(acc)
    } else {
        match expr_end(s, pos, true) {
            Err(e) => Err(e),
            Ok(e) => {
                let acc2 = acc.push(span_v(s, pos, e));
                if e >= s.len() {
                    Ok(acc2)
                } else if at_punct(s, e, ',') {
                    expr_list(s, e + 1, acc2)
                } else {
                    Err(DsError::Expected)
                }
            },
        }
    }
}

/// A widget's optional `[ enchants ]`.
pub open spec fn enchants_at(s: Seq<Tok>, pos: int) -> Result<(Seq<Seq<TokV>>, int), DsError> {
    if at_group(s, pos, Delim::Bracket) {
        match expr_list(inner_of(s[pos]), 0, Seq::empty()) {
            Ok(a) => Ok((a, pos + 1)),
            Err(e) => Err(e),
        }
    } else {
        Ok((Seq::empty(), pos))
    }
}

/// The body of an `on` handler at `s[r]`: a block is taken when present;
/// without one, the handler must have had arguments (callback form).
pub open spec fn on_body(s: Seq<Tok>, r: int, has_args: bool) -> Result<
    (Option<Seq<TokV>>, int),
    DsError,
> {
    if at_group(s, r, Delim::Brace) {
        if block_at(s, r) {
            Ok((Some(toks_v(inner_of(s[r]))), r + 1))
        } else {
            Err(DsError::Rust)
        }
    } else if has_args {
        Ok((None, r))
    } else {
        Err(DsError::Expected)
    }
}

/// `on [Qualifier::]Event[(args)] [{ body }]` at `s[pos]` (which is `on`).
pub open spec fn on_handler(s: Seq<Tok>, pos: int) -> Result<(OnV, int), DsError> {
    let p = pos + 1;
    if !at_ident(s, p) {
        Err(DsError::Expected)
    } else {
        let qualified = at_punct2(s, p + 1, ':', ':');
        if qualified && !at_ident(s, p + 3) {
            Err(DsError::Expected)
        } else {
            let qualifier = if qualified {
                Some(ident_of(s[p]))
            } else {
                None
            };
            let name = if qualified {
                ident_of(s[p + 3])
            } else {
                ident_of(s[p])
            };
            let q = if qualified {
                p + 4
            } else {
                p + 1
            };
            let has_args = at_group(s, q, Delim::Paren);
            let ares = if has_args {
                expr_list(inner_of(s[q]), 0, Seq::empty())
            } else {
                Ok(Seq::empty())
            };
            let r = if has_args {
                q + 1
            } else {
                q
            };
            match ares {
                Err(e) => Err(e),
                Ok(args) => match on_body(s, r, has_args) {
                    Err(e) => Err(e),
                    Ok((body, end)) => Ok(
                        (OnV { qualifier: qualifier, name: name, args: args, body: body }, end),
                    ),
                },
            }
        }
    }
}

/// Consecutive `on` handlers from `s[pos]`, appended to `acc`.
pub open spec fn on_list(s: Seq<Tok>, pos: int, acc: Seq<OnV>) -> Result<(Seq<OnV>, int), DsError>
    decreases s.len() - pos,
{
    if pos >= 0 && at_word(s, pos, "on"@) {
        match on_handler(s, pos) {
            Err(e) => Err(e),
            Ok((h, p)) => on_list(s, p, acc.push(h)),
        }
    } else {
        Ok((acc, pos))
    }
}

/// A widget at `s[pos]`: name, attributes, enchants, and handlers written
/// before its body.
pub open spec fn widget(s: Seq<Tok>, pos: int) -> Result<(WidgetV, int), DsError> {
    match attrs_at(s, pos + 1) {
        Err(e) => Err(e),
        Ok((attrs, p1)) => match enchants_at(s, p1) {
            Err(e) => Err(e),
            Ok((en, p2)) => match on_list(s, p2, Seq::empty()) {
                Err(e) => Err(e),
                Ok((hs, p3)) => Ok(
                    (
                        WidgetV {
                            name: ident_of(s[pos]),
                            attrs: attrs,
                            enchants: en,
                            on_handlers: hs,
                        },
                        p3,
                    ),
                ),
            },
        },
    }
}

/// `@name` / `@@name` at `s[pos]`.
pub open spec fn niche(s: Seq<Tok>, pos: int) -> Result<(NodeV, int), DsError> {
    let decl = at_punct(s, pos + 1, '@');
    let p = if decl {
        pos + 2
    } else {
        pos + 1
    };
    if at_ident(s, p) {
        Ok((NodeV::Niche { name: ident_of(s[p]), is_declaration: decl }, p + 1))
    } else {
        Err(DsError::Expected)
    }
}

/// `if [$]condition` at `s[pos]`.
pub open spec fn if_head(s: Seq<Tok>, pos: int) -> Result<(NodeV, int), DsError> {
    match reactive_expr(s, pos + 1, false) {
        Err(e) => Err(e),
        Ok((r, a, b)) => Ok((NodeV::If { condition: span_v(s, a, b), reactive: r }, b)),
    }
}

/// The first brace group at or after `s[i]` (or the end of `s`).
pub open spec fn first_brace(s: Seq<Tok>, i: int) -> int
    decreases s.len() - i,
{
    if i < 0 || i >= s.len() {
        s.len() as int
    } else if at_group(s, i, Delim::Brace) {
        i
    } else {
        first_brace(s, i + 1)
    }
}

/// `walk [$]iterable with variable [by key]` at `s[pos]`.
pub open spec fn walk_head(s: Seq<Tok>, pos: int) -> Result<(NodeV, int), DsError> {
    match reactive_expr(s, pos + 1, true) {
        Err(e) => Err(e),
        Ok((r, a, b)) => if !at_word(s, b, "with"@) || !at_ident(s, b + 1) {
            Err(DsError::Expected)
        } else {
            let p = b + 2;
            if at_word(s, p, "by"@) {
                let q = first_brace(s, p + 1);
                if rust_expr_rest(span_v(s, p + 1, q), true) == Some(0usize) {
                    Ok(
                        (
                            NodeV::Iter {
                                iterable: span_v(s, a, b),
                                variable: ident_of(s[b + 1]),
                                reactive: r,
                                key: Some(span_v(s, p + 1, q)),
                            },
                            q,
                        ),
                    )
                } else {
                    Err(DsError::Rust)
                }
            } else {
                Ok(
                    (
                        NodeV::Iter {
                            iterable: span_v(s, a, b),
                            variable: ident_of(s[b + 1]),
                            reactive: r,
                            key: None,
                        },
                        p,
                    ),
                )
            }
        },
    }
}

/// The first `=>` at or after `s[i]` (or the end of `s`).
pub open spec fn find_arrow(s: Seq<Tok>, i: int) -> int
    decreases s.len() - i,
{
    if i < 0 || i >= s.len() {
        s.len() as int
    } else if at_punct2(s, i, '=', '>') {
        i
    } else {
        find_arrow(s, i + 1)
    }
}

pub proof fn lemma_find_arrow(s: Seq<Tok>, i: int)
    requires
        0 <= i,
    ensures
        i <= find_arrow(s, i) <= s.len() || (i > s.len() && find_arrow(s, i) == s.len()),
        find_arrow(s, i) < s.len() ==> at_punct2(s, find_arrow(s, i), '=', '>'),
    decreases s.len() - i,
{
    if i < s.len() && !at_punct2(s, i, '=', '>') {
        lemma_find_arrow(s, i + 1);
    }
}

pub proof fn lemma_first_brace(s: Seq<Tok>, i: int)
    requires
        0 <= i <= s.len(),
    ensures
        i <= first_brace(s, i) <= s.len(),
        first_brace(s, i) < s.len() ==> at_group(s, first_brace(s, i), Delim::Brace),
    decreases s.len() - i,
{
    if i < s.len() && !at_group(s, i, Delim::Brace) {
        lemma_first_brace(s, i + 1);
    }
}

/// A content node at `s[pos]`, by the first form that its tokens announce:
/// code block, niche, `match`, widget, `if`, `walk`.
pub open spec fn node(s: Seq<Tok>, pos: int) -> Result<(NodeV, int), DsError>
    decreases s, s.len() - pos, 4int,
{
    if at_punct(s, pos, '$') && at_group(s, pos + 1, Delim::Brace) {
        Ok(
            (
                NodeV::CodeBlock {
                    tokens: toks_v(inner_of(s[pos + 1])),
                    source_text: match s[pos + 1] {
                        Tok::Group { source, .. } => match source {
                            Some(t) => Some(t@),
                            None => None,
                        },
                        _ => None,
                    },
                },
                pos + 2,
            ),
        )
    } else if at_punct(s, pos, '@') {
        niche(s, pos)
    } else if at_word(s, pos, "match"@) {
        match_node(s, pos)
    } else if at_ident(s, pos) && !is_dsl_keyword(ident_of(s[pos])) {
        match widget(s, pos) {
            Ok((w, p)) => Ok((NodeV::Widget(w), p)),
            Err(e) => Err(e),
        }
    } else if at_word(s, pos, "if"@) {
        if_head(s, pos)
    } else if at_word(s, pos, "walk"@) {
        walk_head(s, pos)
    } else if at_word(s, pos, "on"@) {
        Err(DsError::OnWithoutWidget)
    } else {
        Err(DsError::Expected)
    }
}

/// `match [$]scrutinee { arms }` at `s[pos]`.
pub open spec fn match_node(s: Seq<Tok>, pos: int) -> Result<(NodeV, int), DsError>
    decreases s, s.len() - pos, 3int,
{
    match reactive_expr(s, pos + 1, false) {
        Err(e) => Err(e),
        Ok((r, a, b)) => if !at_group(s, b, Delim::Brace) {
            Err(DsError::Expected)
        } else {
            proof {
                assert(decreases_to!(s => s[b]));
            }
            match arms(inner_of(s[b]), 0, Seq::empty()) {
                Err(e) => Err(e),
                Ok(arm_list) => Ok(
                    (NodeV::Match { scrutinee: span_v(s, a, b), reactive: r, arms: arm_list }, b + 1),
                ),
            }
        },
    }
}

/// The arms of a `match` from `s[pos]`: `pattern => { children }`, each
/// optionally followed by `,`, appended to `acc`.
pub open spec fn arms(s: Seq<Tok>, pos: int, acc: Seq<ArmV>) -> Result<Seq<ArmV>, DsError>
    decreases s, s.len() - pos, 7int,
{
    if pos < 0 || pos >= s.len() {
        Ok(acc)
    } else {
        let j = find_arrow(s, pos);
        proof {
            lemma_find_arrow(s, pos);
        }
        if j >= s.len() {
            Err(DsError::Expected)
        } else if !rust_pat_ok(span_v(s, pos, j)) {
            Err(DsError::Rust)
        } else if !at_group(s, j + 2, Delim::Brace) {
            Err(DsError::Expected)
        } else {
            proof {
                assert(decreases_to!(s => s[j + 2]));
            }
            match children(inner_of(s[j + 2]), 0, Seq::empty()) {
                Err(e) => Err(e),
                Ok(kids) => {
                    let p = j + 3;
                    let p2 = if at_punct(s, p, ',') {
                        p + 1
                    } else {
                        p
                    };
                    arms(s, p2, acc.push(ArmV { pat: span_v(s, pos, j), children: kids }))
                },
            }
        }
    }
}

/// `t` with `h` appended to its widget's handlers.
pub open spec fn with_handler(t: TreeV, h: OnV) -> TreeV {
    match t.node {
        NodeV::Widget(w) => TreeV {
            node: NodeV::Widget(WidgetV { on_handlers: w.on_handlers.push(h), ..w }),
            ..t
        },
        _ => t,
    }
}

/// Handlers written after a node (`Widget() {} on Tap { ... }`): they attach
/// to the node when it is a widget.
pub open spec fn tree_ons(s: Seq<Tok>, pos: int, t: TreeV) -> Result<(TreeV, int), DsError>
    decreases s.len() - pos,
{
    if pos >= 0 && at_word(s, pos, "on"@) {
        match on_handler(s, pos) {
            Err(e) => Err(e),
            Ok((h, p)) => if t.node is Widget {
                tree_ons(s, p, with_handler(t, h))
            } else {
                Err(DsError::OnNotWidget)
            },
        }
    } else {
        Ok((t, pos))
    }
}

/// A tree at `s[pos]`: a node, its braced children (required after `if`
/// and `walk`, optional elsewhere), an `if`'s `elif` / `else` chain, and the
/// handlers that follow.
pub open spec fn tree(s: Seq<Tok>, pos: int) -> Result<(TreeV, int), DsError>
    decreases s, s.len() - pos, 5int,
{
    match node(s, pos) {
        Err(e) => Err(e),
        Ok((n, p)) => {
            let needs_body = n is If || n is Iter;
            if (needs_body || at_group(s, p, Delim::Brace)) && !at_group(s, p, Delim::Brace) {
                Err(DsError::Expected)
            } else if p <= pos {
                Err(DsError::Expected)
            } else {
                let braced = at_group(s, p, Delim::Brace);
                proof {
                    if braced {
                        assert(decreases_to!(s => s[p]));
                    }
                }
                let cres = if braced {
                    children(inner_of(s[p]), 0, Seq::empty())
                } else {
                    Ok(Seq::empty())
                };
                let q = if braced {
                    p + 1
                } else {
                    p
                };
                match cres {
                    Err(e) => Err(e),
                    Ok(kids) => {
                        let eres = if n is If {
                            else_chain(s, q)
                        } else {
                            Ok((None, q))
                        };
                        match eres {
                            Err(e) => Err(e),
                            Ok((eb, r)) => tree_ons(
                                s,
                                r,
                                TreeV { node: n, children: kids, else_branch: eb },
                            ),
                        }
                    },
                }
            }
        },
    }
}

/// The `elif` / `else` tail of an `if` at `s[q]`.
pub open spec fn else_chain(s: Seq<Tok>, q: int) -> Result<(Option<Box<TreeV>>, int), DsError>
    decreases s, s.len() - q, 2int,
{
    if q >= 0 && at_word(s, q, "elif"@) {
        match reactive_expr(s, q + 1, false) {
            Err(e) => Err(e),
            Ok((r, a, b)) => if !at_group(s, b, Delim::Brace) {
                Err(DsError::Expected)
            } else {
                proof {
                    assert(decreases_to!(s => s[b]));
                }
                match children(inner_of(s[b]), 0, Seq::empty()) {
                    Err(e) => Err(e),
                    Ok(kids) => match else_chain(s, b + 1) {
                        Err(e) => Err(e),
                        Ok((rest, end)) => Ok(
                            (
                                Some(
                                    Box::new(
                                        TreeV {
                                            node: NodeV::If {
                                                condition: span_v(s, a, b),
                                                reactive: r,
                                            },
                                            children: kids,
                                            else_branch: rest,
                                        },
                                    ),
                                ),
                                end,
                            ),
                        ),
                    },
                }
            },
        }
    } else if q >= 0 && at_word(s, q, "else"@) {
        if !at_group(s, q + 1, Delim::Brace) {
            Err(DsError::Expected)
        } else {
            proof {
                assert(decreases_to!(s => s[q + 1]));
            }
            match children(inner_of(s[q + 1]), 0, Seq::empty()) {
                Err(e) => Err(e),
                Ok(kids) => Ok(
                    (
                        Some(Box::new(TreeV { node: NodeV::Else, children: kids, else_branch: None })),
                        q + 2,
                    ),
                ),
            }
        }
    } else {
        Ok((None, q))
    }
}

/// The last tree of `acc` with `h` attached, when it is a widget.
pub open spec fn attach_last(acc: Seq<TreeV>, h: OnV) -> Result<Seq<TreeV>, DsError> {
    if acc.len() == 0 {
        Err(DsError::OnWithoutWidget)
    } else if acc.last().node is Widget {
        Ok(acc.update(acc.len() - 1, with_handler(acc.last(), h)))
    } else {
        Err(DsError::OnNotWidget)
    }
}

/// Trees filling `s` from `pos`, appended to `acc`; an `on` handler here
/// attaches to the preceding sibling widget.
pub open spec fn children(s: Seq<Tok>, pos: int, acc: Seq<TreeV>) -> Result<Seq<TreeV>, DsError>
    decreases s, s.len() - pos, 6int,
{
    if pos < 0 || pos >= s.len() {
        Ok(acc)
    } else if at_word(s, pos, "on"@) {
        match on_handler(s, pos) {
            Err(e) => Err(e),
            Ok((h, p)) => match attach_last(acc, h) {
                Err(e) => Err(e),
                Ok(acc2) => children(s, p, acc2),
            },
        }
    } else {
        match tree(s, pos) {
            Err(e) => Err(e),
            Ok((t, p)) => if p <= pos || p > s.len() {
                Err(DsError::Expected)
            } else {
                children(s, p, acc.push(t))
            },
        }
    }
}

/// A tree at `s[pos]` that takes all of the rest of `s`.
pub open spec fn tree_from(s: Seq<Tok>, pos: int) -> Result<TreeV, DsError> {
    match tree(s, pos) {
        Err(e) => Err(e),
        Ok((t, p)) => if p == s.len() {
            Ok(t)
        } else {
            Err(DsError::Unexpected)
        },
    }
}

/// A whole token stream as one tree, with nothing left over.
pub open spec fn tree_all(s: Seq<Tok>) -> Result<TreeV, DsError> {
    tree_from(s, 0)
}

/// The value of the first attribute named `parent`, or `()`.
pub open spec fn parent_of(attrs: Seq<AttrV>) -> Seq<TokV>
    decreases attrs.len(),
{
    if attrs.len() == 0 {
        unit_v()
    } else if attrs[0].name == Some("parent"@) {
        attrs[0].value
    } else {
        parent_of(attrs.drop_first())
    }
}

/// A header group whose source text is known and fits on one line.
pub open spec fn one_line(t: Tok) -> bool {
    match t {
        Tok::Group { source, .. } => match source {
            Some(text) => !text@.contains('\n'),
            None => false,
        },
        _ => false,
    }
}

/// The `( attrs )` of a `:( ... :)` header at `s[1]`; several attributes
/// must not share one line.
pub open spec fn header(s: Seq<Tok>) -> Result<Seq<AttrV>, DsError> {
    if !at_group(s, 1, Delim::Paren) {
        Err(DsError::Expected)
    } else {
        match attr_list(inner_of(s[1]), 0, Seq::empty(), true) {
            Err(e) => Err(e),
            Ok(attrs) => if one_line(s[1]) && attrs.len() > 1 {
                Err(DsError::HeaderOneLine)
            } else {
                Ok(attrs)
            },
        }
    }
}

/// A `ui!` body: an optional `:( attrs :)` header, then one content tree.
pub open spec fn root(s: Seq<Tok>) -> Result<RootV, DsError> {
    if at_punct(s, 0, ':') {
        match header(s) {
            Err(e) => Err(e),
            Ok(attrs) => match tree_from(s, 2) {
                Err(e) => Err(e),
                Ok(t) => Ok(RootV { context_attrs: attrs, parent: parent_of(attrs), content: t }),
            },
        }
    } else {
        match tree_from(s, 0) {
            Err(e) => Err(e),
            Ok(t) => Ok(RootV { context_attrs: Seq::empty(), parent: unit_v(), content: t }),
        }
    }
}

/// A whole token stream as one attribute.
pub open spec fn attr_all(s: Seq<Tok>) -> Result<AttrV, DsError> {
    if s.len() == 0 {
        Err(DsError::Rust)
    } else {
        match attr(s, 0) {
            Err(e) => Err(e),
            Ok((a, p)) => if p == s.len() {
                Ok(a)
            } else {
                Err(DsError::Unexpected)
            },
        }
    }
}

/// A whole token stream as a widget's optional attribute list.
pub open spec fn attrs_all(s: Seq<Tok>) -> Result<Seq<AttrV>, DsError> {
    match attrs_at(s, 0) {
        Err(e) => Err(e),
        Ok((a, p)) => if p == s.len() {
            Ok(a)
        } else {
            Err(DsError::Unexpected)
        },
    }
}

} // verus!
