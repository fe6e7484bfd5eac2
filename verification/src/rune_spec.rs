//! What the default rune generates for a tree: one `println!` statement
//! per step of a walk over the tree, stated over the token model.

use vstd::prelude::*;
use crate::token::{Delim, TokV};
use crate::ds_node::{ArmV, AttrV, NodeV, OnV, TreeV};
use crate::fmt_spec::text_of;

verus! {

/// What `proc_macro2::Literal::string` prints for `s` in `proc_macro2`'s
/// own implementation: a quoted, escaped string literal.
pub uninterp spec fn string_literal(s: Seq<char>) -> Seq<char>;

/// The decimal digit `d`.
pub open spec fn digit(d: nat) -> char {
    if d == 0 {
        '0'
    } else if d == 1 {
        '1'
    } else if d == 2 {
        '2'
    } else if d == 3 {
        '3'
    } else if d == 4 {
        '4'
    } else if d == 5 {
        '5'
    } else if d == 6 {
        '6'
    } else if d == 7 {
        '7'
    } else if d == 8 {
        '8'
    } else {
        '9'
    }
}

/// `n` in decimal, without leading zeros.
pub open spec fn decimal(n: nat) -> Seq<char>
    decreases n,
{
    if n < 10 {
        seq![digit(n)]
    } else {
        decimal(n / 10).push(digit(n % 10))
    }
}

/// A string literal token holding `s`.
pub open spec fn str_lit(s: Seq<char>) -> TokV {
    TokV::Lit(string_literal(s))
}

/// A `usize`-suffixed integer literal token.
pub open spec fn usize_lit(n: nat) -> TokV {
    TokV::Lit(decimal(n) + "usize"@)
}

/// The arguments of a macro call, commas between them.
pub open spec fn comma_sep(args: Seq<Seq<TokV>>) -> Seq<TokV>
    decreases args.len(),
{
    if args.len() == 0 {
        Seq::empty()
    } else if args.len() == 1 {
        args[0]
    } else {
        comma_sep(args.drop_last()) + seq![TokV::Punct(',', false)] + args.last()
    }
}

/// `println!(args);`
pub open spec fn println_call(args: Seq<Seq<TokV>>) -> Seq<TokV> {
    seq![
        TokV::Ident("println"@),
        TokV::Punct('!', false),
        TokV::Group(Delim::Paren, comma_sep(args)),
        TokV::Punct(';', false),
    ]
}

/// `println!(format, args...);` with a format string written as `format`
/// (quotes included).
pub open spec fn print_stmt(format: Seq<char>, args: Seq<Seq<TokV>>) -> Seq<TokV> {
    println_call(seq![seq![TokV::Lit(format)]] + args)
}

/// Concatenation of token sequences.
pub open spec fn flat(parts: Seq<Seq<TokV>>) -> Seq<TokV>
    decreases parts.len(),
{
    if parts.len() == 0 {
        Seq::empty()
    } else {
        flat(parts.drop_last()) + parts.last()
    }
}

/// The statement for the root: its parent expression.
pub open spec fn root_stmt(parent_expr: Seq<TokV>) -> Seq<TokV> {
    print_stmt("\"let {} = {:?}\""@, seq![seq![str_lit("parent"@)], parent_expr])
}

/// The name an attribute is set by: its own, or `<positional>`.
pub open spec fn attr_label(a: AttrV) -> Seq<char> {
    match a.name {
        Some(n) => n,
        None => "<positional>"@,
    }
}

/// A widget's statements: its creation under `parent`, one setter per
/// attribute, one line per handler with its argument count.
pub open spec fn widget_stmts(name: Seq<char>, attrs: Seq<AttrV>, ons: Seq<OnV>, parent: Seq<char>) -> Seq<TokV> {
    print_stmt("\"let {} = obj::new({})\""@, seq![seq![str_lit(name)], seq![str_lit(parent)]])
        + flat(Seq::new(attrs.len(), |i: int| attr_stmt(name, attrs[i]))) + flat(
        Seq::new(ons.len(), |i: int| on_stmt(name, ons[i])),
    )
}

/// One attribute setter.
pub open spec fn attr_stmt(name: Seq<char>, a: AttrV) -> Seq<TokV> {
    print_stmt(
        "\"{}.set_{}({:?})\""@,
        seq![seq![str_lit(name)], seq![str_lit(attr_label(a))], a.value],
    )
}

/// One handler line.
pub open spec fn on_stmt(name: Seq<char>, h: OnV) -> Seq<TokV> {
    print_stmt(
        "\"{}.on_{}({} args)\""@,
        seq![seq![str_lit(name)], seq![str_lit(h.name)], seq![usize_lit(h.args.len())]],
    )
}

/// A closing `}` line.
pub open spec fn close_stmt() -> Seq<TokV> {
    print_stmt("\"}}\""@, Seq::empty())
}

/// The statements that the default rune generates for `t` when the current
/// parent is `parent`, and the parent name after it.
pub open spec fn emit(t: TreeV, parent: Seq<char>) -> (Seq<TokV>, Seq<char>)
    decreases t,
{
    match t.node {
        NodeV::Root(e) => {
            let (c, q) = emit_all(t.children, "parent"@);
            (root_stmt(e) + c, q)
        },
        NodeV::Widget(w) => {
            let (c, q) = emit_all(t.children, w.name);
            (widget_stmts(w.name, w.attrs, w.on_handlers, parent) + c, parent)
        },
        NodeV::If { condition, .. } => {
            let (c, q) = emit_all(t.children, parent);
            let head = print_stmt("\"if {} {{\""@, seq![seq![str_lit(text_of(condition))]]);
            match t.else_branch {
                Some(b) => {
                    let (e, r) = emit(*b, q);
                    (head + c + close_stmt() + e, r)
                },
                None => (head + c + close_stmt(), q),
            }
        },
        NodeV::Else => emit_all(t.children, parent),
        NodeV::Iter { iterable, variable, .. } => {
            let (c, q) = emit_all(t.children, parent);
            (
                print_stmt(
                    "\"for {} in {} {{\""@,
                    seq![seq![str_lit(variable)], seq![str_lit(text_of(iterable))]],
                ) + c + close_stmt(),
                q,
            )
        },
        NodeV::Niche { name, .. } => {
            let (c, q) = emit_all(t.children, parent);
            (print_stmt("\"@{} {{\""@, seq![seq![str_lit(name)]]) + c + close_stmt(), q)
        },
        NodeV::Match { scrutinee, arms, .. } => {
            let (c, q) = emit_arms(arms, parent);
            (
                print_stmt("\"match {} {{\""@, seq![seq![str_lit(text_of(scrutinee))]]) + c
                    + close_stmt(),
                q,
            )
        },
        NodeV::CodeBlock { tokens, .. } => (
            print_stmt("\"${{ {} }}\""@, seq![seq![str_lit(text_of(tokens))]]),
            parent,
        ),
    }
}

/// Sibling trees in order, the parent name threaded through.
pub open spec fn emit_all(ts: Seq<TreeV>, parent: Seq<char>) -> (Seq<TokV>, Seq<char>)
    decreases ts,
{
    if ts.len() == 0 {
        (Seq::empty(), parent)
    } else {
        let (c, q) = emit_all(ts.drop_last(), parent);
        let (d, r) = emit(ts.last(), q);
        (c + d, r)
    }
}

/// The arms of a `match`: each arm's pattern line, its children, its
/// closing line.
pub open spec fn emit_arms(arms: Seq<ArmV>, parent: Seq<char>) -> (Seq<TokV>, Seq<char>)
    decreases arms,
{
    if arms.len() == 0 {
        (Seq::empty(), parent)
    } else {
        let (c, q) = emit_arms(arms.drop_last(), parent);
        let a = arms.last();
        let (d, r) = emit_all(a.children, q);
        (
            c + print_stmt("\"  {} => {{\""@, seq![seq![str_lit(text_of(a.pat))]]) + d
                + print_stmt("\"  }}\""@, Seq::empty()),
            r,
        )
    }
}


/// A widget with its children, as the default rune generates it; the
/// parent name is restored after the children.
pub open spec fn widget_code(
    name: Seq<char>,
    attrs: Seq<AttrV>,
    ons: Seq<OnV>,
    kids: Seq<TreeV>,
    parent: Seq<char>,
) -> (Seq<TokV>, Seq<char>) {
    (widget_stmts(name, attrs, ons, parent) + emit_all(kids, name).0, parent)
}

/// An `if` with its children and its `elif` / `else` tail.
pub open spec fn if_code(cond: Seq<TokV>, kids: Seq<TreeV>, eb: Option<TreeV>, parent: Seq<char>) -> (
    Seq<TokV>,
    Seq<char>,
) {
    let (c, q) = emit_all(kids, parent);
    let head = print_stmt("\"if {} {{\""@, seq![seq![str_lit(text_of(cond))]]);
    match eb {
        Some(b) => {
            let (e, r) = emit(b, q);
            (head + c + close_stmt() + e, r)
        },
        None => (head + c + close_stmt(), q),
    }
}

/// A `walk` with its children.
pub open spec fn iter_code(iterable: Seq<TokV>, variable: Seq<char>, kids: Seq<TreeV>, parent: Seq<char>) -> (
    Seq<TokV>,
    Seq<char>,
) {
    let (c, q) = emit_all(kids, parent);
    (
        print_stmt(
            "\"for {} in {} {{\""@,
            seq![seq![str_lit(variable)], seq![str_lit(text_of(iterable))]],
        ) + c + close_stmt(),
        q,
    )
}

/// A niche with its children.
pub open spec fn niche_code(name: Seq<char>, kids: Seq<TreeV>, parent: Seq<char>) -> (Seq<TokV>, Seq<char>) {
    let (c, q) = emit_all(kids, parent);
    (print_stmt("\"@{} {{\""@, seq![seq![str_lit(name)]]) + c + close_stmt(), q)
}

/// A `match` with its arms.
pub open spec fn match_code(scrutinee: Seq<TokV>, arms: Seq<ArmV>, parent: Seq<char>) -> (
    Seq<TokV>,
    Seq<char>,
) {
    let (c, q) = emit_arms(arms, parent);
    (print_stmt("\"match {} {{\""@, seq![seq![str_lit(text_of(scrutinee))]]) + c + close_stmt(), q)
}

/// A code block's line.
pub open spec fn code_block_stmt(tokens: Seq<TokV>) -> Seq<TokV> {
    print_stmt("\"${{ {} }}\""@, seq![seq![str_lit(text_of(tokens))]])
}


/// One call that the walk makes on a rune, with the values it hands over.
pub enum RuneCall {
    /// `inscribe_root(parent_expr)`.
    Root(Seq<TokV>),
    /// `inscribe_widget(name, attrs, enchants, on_handlers, children)`.
    Widget(Seq<char>, Seq<AttrV>, Seq<Seq<TokV>>, Seq<OnV>, Seq<TreeV>),
    /// `inscribe_if(condition, reactive, children, else_branch)`.
    If(Seq<TokV>, bool, Seq<TreeV>, Option<TreeV>),
    /// `inscribe_iter(iterable, variable, reactive, key, children)`.
    Iter(Seq<TokV>, Seq<char>, bool, Option<Seq<TokV>>, Seq<TreeV>),
    /// `inscribe_niche(name, is_declaration, children)`.
    Niche(Seq<char>, bool, Seq<TreeV>),
    /// `inscribe_match(scrutinee, reactive, arms)`.
    Match(Seq<TokV>, bool, Seq<ArmV>),
    /// `inscribe_code_block(tokens)`.
    CodeBlock(Seq<TokV>),
}

/// The calls the walk makes on a rune for `t`, in order: one per node,
/// root and `else` nodes walked through to their children.
pub open spec fn deciphered(t: TreeV) -> Seq<RuneCall>
    decreases t,
{
    match t.node {
        NodeV::Root(e) => seq![RuneCall::Root(e)] + deciphered_all(t.children),
        NodeV::Widget(w) => seq![
            RuneCall::Widget(w.name, w.attrs, w.enchants, w.on_handlers, t.children),
        ],
        NodeV::If { condition, reactive } => seq![
            RuneCall::If(
                condition,
                reactive,
                t.children,
                match t.else_branch {
                    Some(b) => Some(*b),
                    None => None,
                },
            ),
        ],
        NodeV::Iter { iterable, variable, reactive, key } => seq![
            RuneCall::Iter(iterable, variable, reactive, key, t.children),
        ],
        NodeV::Niche { name, is_declaration } => seq![
            RuneCall::Niche(name, is_declaration, t.children),
        ],
        NodeV::Match { scrutinee, reactive, arms } => seq![RuneCall::Match(scrutinee, reactive, arms)],
        NodeV::CodeBlock { tokens, .. } => seq![RuneCall::CodeBlock(tokens)],
        NodeV::Else => deciphered_all(t.children),
    }
}

/// The calls for sibling trees, in order.
pub open spec fn deciphered_all(ts: Seq<TreeV>) -> Seq<RuneCall>
    decreases ts,
{
    if ts.len() == 0 {
        Seq::empty()
    } else {
        deciphered_all(ts.drop_last()) + deciphered(ts.last())
    }
}


/// What the default rune generates for one call when the current parent is
/// `parent`, and the parent name after it.
pub open spec fn call_code(c: RuneCall, parent: Seq<char>) -> (Seq<TokV>, Seq<char>) {
    match c {
        RuneCall::Root(e) => (root_stmt(e), "parent"@),
        RuneCall::Widget(name, attrs, _enchants, ons, kids) => widget_code(name, attrs, ons, kids, parent),
        RuneCall::If(cond, _reactive, kids, eb) => if_code(cond, kids, eb, parent),
        RuneCall::Iter(iterable, variable, _reactive, _key, kids) => iter_code(iterable, variable, kids, parent),
        RuneCall::Niche(name, _is_declaration, kids) => niche_code(name, kids, parent),
        RuneCall::Match(scrutinee, _reactive, arms) => match_code(scrutinee, arms, parent),
        RuneCall::CodeBlock(tokens) => (code_block_stmt(tokens), parent),
    }
}

/// The default rune's code and parent name after `calls`, from `start`.
pub open spec fn replay(calls: Seq<RuneCall>, start: (Seq<TokV>, Seq<char>)) -> (Seq<TokV>, Seq<char>)
    decreases calls.len(),
{
    if calls.len() == 0 {
        start
    } else {
        let (k, p) = replay(calls.drop_last(), start);
        let (d, q) = call_code(calls.last(), p);
        (k + d, q)
    }
}

/// Replaying two runs of calls one after the other is replaying them joined.
pub proof fn lemma_replay_append(a: Seq<RuneCall>, b: Seq<RuneCall>, start: (Seq<TokV>, Seq<char>))
    ensures
        replay(a + b, start) == replay(b, replay(a, start)),
    decreases b.len(),
{
    if b.len() == 0 {
        assert(a + b =~= a);
    } else {
        lemma_replay_append(a, b.drop_last(), start);
        assert((a + b).drop_last() =~= a + b.drop_last());
        assert((a + b).last() == b.last());
    }
}

/// Replaying the calls of the walk over `t` on the default rune generates
/// exactly `emit`'s statements for `t`, and leaves `emit`'s parent name.
pub proof fn law_replay_deciphered(t: TreeV, code: Seq<TokV>, parent: Seq<char>)
    ensures
        replay(deciphered(t), (code, parent)) == (code + emit(t, parent).0, emit(t, parent).1),
    decreases t,
{
    match t.node {
        NodeV::Root(e) => {
            let one = seq![RuneCall::Root(e)];
            let kids = t.children;
            assert(one.drop_last() =~= Seq::<RuneCall>::empty());
            assert(replay(one.drop_last(), (code, parent)) == (code, parent));
            assert(deciphered(t) == one + deciphered_all(kids));
            lemma_replay_append(one, deciphered_all(kids), (code, parent));
            lemma_replay_deciphered_all(kids, code + root_stmt(e), "parent"@);
            assert(code + root_stmt(e) + emit_all(kids, "parent"@).0 =~= code + (root_stmt(e)
                + emit_all(kids, "parent"@).0));
        },
        NodeV::Else => {
            lemma_replay_deciphered_all(t.children, code, parent);
        },
        _ => {
            assert(deciphered(t).drop_last() =~= Seq::<RuneCall>::empty());
            assert(replay(deciphered(t).drop_last(), (code, parent)) == (code, parent));

        },
    }
}

/// The same for sibling trees, the parent name threaded through.
pub proof fn lemma_replay_deciphered_all(ts: Seq<TreeV>, code: Seq<TokV>, parent: Seq<char>)
    ensures
        replay(deciphered_all(ts), (code, parent)) == (code + emit_all(ts, parent).0, emit_all(ts, parent).1),
    decreases ts,
{
    if ts.len() == 0 {
        assert(code + Seq::<TokV>::empty() =~= code);
    } else {
        let (c, q) = emit_all(ts.drop_last(), parent);
        lemma_replay_append(deciphered_all(ts.drop_last()), deciphered(ts.last()), (code, parent));
        lemma_replay_deciphered_all(ts.drop_last(), code, parent);
        law_replay_deciphered(ts.last(), code + c, q);
        let (d, r) = emit(ts.last(), q);
        assert(code + c + d =~= code + (c + d));
    }
}
} // verus!
