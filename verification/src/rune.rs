//! Code generation: the `DsRune` interface that backends implement, the
//! walk that drives one over a tree, and the default rune, which generates
//! `println!` statements that trace the tree.

use vstd::prelude::*;
use crate::token::{Delim, Lines, Tok, TokV, tok_v, tok_clone, toks_v, lemma_toks_v, lemma_toks_v_push};
use crate::text::chars_of;
use crate::ds_node::{DsAttr, DsMatchArm, DsNode, DsOn, DsTree, attrs_v, arms_v, exprs_v, ons_v, trees_v, tree_v, lemma_tree_v, lemma_trees_v, lemma_arms_v_push};
use crate::fmt_expr::tok_text;
use crate::fmt_spec::text_of;
use crate::rune_spec::{RuneCall, call_code, replay, lemma_replay_append, law_replay_deciphered, deciphered, deciphered_all, attr_label, comma_sep, decimal, emit, emit_all, emit_arms, flat, print_stmt, root_stmt, str_lit, string_literal, usize_lit, widget_stmts};

verus! {

broadcast use vstd::seq_lib::group_seq_properties;

/// The value of an optional tree reference.
pub open spec fn opt_tree_v(b: Option<&DsTree>) -> Option<crate::ds_node::TreeV> {
    match b {
        Some(t) => Some(t@),
        None => None,
    }
}

/// The value of an optional key expression.
pub open spec fn opt_key_v(k: Option<&Vec<Tok>>) -> Option<Seq<TokV>> {
    match k {
        Some(v) => Some(toks_v(v@)),
        None => None,
    }
}

/// The code-generation interface: a backend "inscribes" each node kind.
/// The walk (`decipher`) calls one method per node; a backend walks the
/// children it is handed when and as it wants, typically by calling
/// `decipher` on each.
pub trait DsRune {
    /// The calls the rune has been handed so far, in order.
    spec fn calls(&self) -> Seq<RuneCall>;

    /// What the rune keeps true from one call to the next.
    spec fn inv(&self) -> bool;

    /// The root node, with the parent expression.
    fn inscribe_root(&mut self, parent_expr: &[Tok])
        requires
            old(self).inv(),
        ensures
            final(self).inv(),
            final(self).calls() == old(self).calls().push(RuneCall::Root(toks_v(parent_expr@))),
    ;

    /// A widget, with every `on` handler attached to it.
    fn inscribe_widget(
        &mut self,
        name: &[char],
        attrs: &[DsAttr],
        enchants: &[Vec<Tok>],
        on_handlers: &[DsOn],
        children: &[DsTree],
    )
        requires
            old(self).inv(),
        ensures
            final(self).inv(),
            final(self).calls() == old(self).calls().push(
                RuneCall::Widget(
                    name@,
                    attrs_v(attrs@),
                    exprs_v(enchants@),
                    ons_v(on_handlers@),
                    trees_v(children@),
                ),
            ),
    ;

    /// An `if`; `reactive` when its condition carries `$`. `else_branch`
    /// is an `Else` tree (its children are the else body) or an `If` tree
    /// (an `elif`).
    fn inscribe_if(
        &mut self,
        condition: &[Tok],
        reactive: bool,
        children: &[DsTree],
        else_branch: Option<&DsTree>,
    )
        requires
            old(self).inv(),
        ensures
            final(self).inv(),
            final(self).calls() == old(self).calls().push(
                RuneCall::If(toks_v(condition@), reactive, trees_v(children@), opt_tree_v(else_branch)),
            ),
    ;

    /// A `walk`.
    fn inscribe_iter(
        &mut self,
        iterable: &[Tok],
        variable: &[char],
        reactive: bool,
        key: Option<&Vec<Tok>>,
        children: &[DsTree],
    )
        requires
            old(self).inv(),
        ensures
            final(self).inv(),
            final(self).calls() == old(self).calls().push(
                RuneCall::Iter(
                    toks_v(iterable@),
                    variable@,
                    reactive,
                    opt_key_v(key),
                    trees_v(children@),
                ),
            ),
    ;

    /// A niche: `@@name` declares a slot (`is_declaration`), `@name` fills one.
    fn inscribe_niche(&mut self, name: &[char], is_declaration: bool, children: &[DsTree])
        requires
            old(self).inv(),
        ensures
            final(self).inv(),
            final(self).calls() == old(self).calls().push(
                RuneCall::Niche(name@, is_declaration, trees_v(children@)),
            ),
    ;

    /// A `match` with its arms.
    fn inscribe_match(&mut self, scrutinee: &[Tok], reactive: bool, arms: &[DsMatchArm])
        requires
            old(self).inv(),
        ensures
            final(self).inv(),
            final(self).calls() == old(self).calls().push(
                RuneCall::Match(toks_v(scrutinee@), reactive, arms_v(arms@)),
            ),
    ;

    /// A `${ ... }` code block.
    fn inscribe_code_block(&mut self, tokens: &[Tok])
        requires
            old(self).inv(),
        ensures
            final(self).inv(),
            final(self).calls() == old(self).calls().push(RuneCall::CodeBlock(toks_v(tokens@))),
    ;

    /// Finish and hand back the generated tokens.
    fn seal(self) -> Vec<Tok>;
}

/// Walk `tree`, calling the rune's method for its node kind. Root and
/// `else` nodes are walked through: their children are deciphered in turn.
pub fn decipher<R: DsRune>(tree: &DsTree, rune: &mut R)
    requires
        old(rune).inv(),
    ensures
        final(rune).inv(),
        final(rune).calls() == old(rune).calls() + deciphered(tree@),
    decreases tree,
{
    proof {
        lemma_tree_v(*tree);
        lemma_trees_v(tree.children@);
    }
    match &tree.node {
        DsNode::Root(expr) => {
            rune.inscribe_root(expr.as_slice());
            decipher_children(tree, rune);
            assert(rune.calls() =~= old(rune).calls() + deciphered(tree@));
        },
        DsNode::Widget(w) => {
            rune.inscribe_widget(
                w.name.as_slice(),
                w.attrs.attrs.as_slice(),
                w.enchants.as_slice(),
                w.on_handlers.as_slice(),
                tree.children.as_slice(),
            );
            assert(rune.calls() =~= old(rune).calls() + deciphered(tree@));
        },
        DsNode::If(c) => {
            let eb: Option<&DsTree> = match &tree.else_branch {
                Some(b) => Some(&**b),
                None => None,
            };
            rune.inscribe_if(c.condition.as_slice(), c.reactive, tree.children.as_slice(), eb);
            assert(rune.calls() =~= old(rune).calls() + deciphered(tree@));
        },
        DsNode::Iter(it) => {
            let key: Option<&Vec<Tok>> = match &it.key {
                Some(k) => Some(k),
                None => None,
            };
            rune.inscribe_iter(
                it.iterable.as_slice(),
                it.variable.as_slice(),
                it.reactive,
                key,
                tree.children.as_slice(),
            );
            assert(rune.calls() =~= old(rune).calls() + deciphered(tree@));
        },
        DsNode::Niche(n) => {
            rune.inscribe_niche(n.name.as_slice(), n.is_declaration, tree.children.as_slice());
            assert(rune.calls() =~= old(rune).calls() + deciphered(tree@));
        },
        DsNode::Match(m) => {
            rune.inscribe_match(m.scrutinee.as_slice(), m.reactive, m.arms.as_slice());
            assert(rune.calls() =~= old(rune).calls() + deciphered(tree@));
        },
        DsNode::CodeBlock(c) => {
            rune.inscribe_code_block(c.tokens.as_slice());
            assert(rune.calls() =~= old(rune).calls() + deciphered(tree@));
        },
        DsNode::Else => {
            decipher_children(tree, rune);
            assert(rune.calls() =~= old(rune).calls() + deciphered(tree@));
        },
    }
}

/// Decipher each child of `tree` in turn.
fn decipher_children<R: DsRune>(tree: &DsTree, rune: &mut R)
    requires
        old(rune).inv(),
    ensures
        final(rune).inv(),
        final(rune).calls() == old(rune).calls() + deciphered_all(trees_v(tree.children@)),
    decreases tree, 0int,
{
    let ghost start = rune.calls();
    let ghost kids = tree.children@;
    let mut i: usize = 0;
    while i < tree.children.len()
        invariant
            i <= kids.len(),
            kids == tree.children@,
            rune.inv(),
            rune.calls() == start + deciphered_all(trees_v(kids.take(i as int))),
        decreases kids.len() - i,
    {
        assert(decreases_to!(tree => tree.children@[i as int]));
        decipher(&tree.children[i], rune);
        proof {
            assert(kids.take(i + 1) =~= kids.take(i as int).push(kids[i as int]));
            crate::ds_node::lemma_trees_v_push(kids.take(i as int), kids[i as int]);
            assert(trees_v(kids.take(i + 1)).drop_last() =~= trees_v(kids.take(i as int)));
        }
        assert(rune.calls() =~= start + deciphered_all(trees_v(kids.take(i + 1))));
        i = i + 1;
    }
    assert(kids.take(kids.len() as int) =~= kids);
}

/// `proc_macro2::Literal::string(s)`, printed: `s` as a quoted, escaped
/// string literal (`string_literal`). Inside a procedural macro
/// `proc_macro2` would hand the literal to the compiler, whose escaping may
/// differ; `proc_macro2::fallback::force` keeps the call on `proc_macro2`'s
/// own implementation, and `fallback::unforce` restores detection.
#[verifier::external_body]
fn string_lit_text(s: &[char]) -> (r: Vec<char>)
    ensures
        r@ == string_literal(s@),
{
    let text: String = s.iter().collect();
    proc_macro2::fallback::force();
    let r = proc_macro2::Literal::string(&text).to_string().chars().collect();
    proc_macro2::fallback::unforce();
    r
}

/// `proc_macro2::Literal::usize_suffixed(n)`, printed: the decimal digits
/// of `n` followed by `usize`.
#[verifier::external_body]
fn usize_lit_text(n: usize) -> (r: Vec<char>)
    ensures
        r@ == decimal(n as nat) + "usize"@,
{
    proc_macro2::Literal::usize_suffixed(n).to_string().chars().collect()
}

/// A token with no source position.
pub(crate) fn at_call_site() -> (r: Lines)
    ensures
        r == (Lines { start: 0, end: 0 }),
{
    Lines { start: 0, end: 0 }
}

/// Append copies of `src` to `dst`.
pub(crate) fn append_toks(dst: &mut Vec<Tok>, src: &[Tok])
    ensures
        toks_v(final(dst)@) == toks_v(old(dst)@) + toks_v(src@),
{
    let mut i: usize = 0;
    proof {
        lemma_toks_v(src@);
    }
    while i < src.len()
        invariant
            i <= src@.len(),
            toks_v(src@).len() == src@.len(),
            forall|j: int| 0 <= j < src@.len() ==> #[trigger] toks_v(src@)[j] == tok_v(src@[j]),
            toks_v(dst@) == toks_v(old(dst)@) + toks_v(src@).take(i as int),
        decreases src@.len() - i,
    {
        let ghost before = dst@;
        let t = tok_clone(&src[i]);
        dst.push(t);
        proof {
            lemma_toks_v_push(before, t);
            assert(toks_v(src@).take(i + 1) =~= toks_v(src@).take(i as int).push(toks_v(src@)[i as int]));
        }
        i = i + 1;
    }
    assert(toks_v(src@).take(src@.len() as int) =~= toks_v(src@));
}

/// A string literal token holding `s`.
pub(crate) fn str_tok(s: &[char]) -> (r: Vec<Tok>)
    ensures
        toks_v(r@) == seq![str_lit(s@)],
{
    let t = Tok::Lit { text: string_lit_text(s), lines: at_call_site() };
    let mut v: Vec<Tok> = Vec::new();
    v.push(t);
    proof {
        lemma_toks_v(v@);
        assert(toks_v(v@) =~= seq![str_lit(s@)]);
    }
    v
}

/// The views of argument token lists.
spec fn args_v(args: Seq<Vec<Tok>>) -> Seq<Seq<TokV>> {
    exprs_v(args)
}

pub proof fn lemma_comma_sep_push(args: Seq<Seq<TokV>>, a: Seq<TokV>)
    requires
        args.len() >= 1,
    ensures
        comma_sep(args.push(a)) == comma_sep(args) + seq![TokV::Punct(',', false)] + a,
{
    assert(args.push(a).drop_last() =~= args);
}

pub proof fn lemma_flat_push(parts: Seq<Seq<TokV>>, p: Seq<TokV>)
    ensures
        flat(parts.push(p)) == flat(parts) + p,
{
    assert(parts.push(p).drop_last() =~= parts);
}

/// Append `println!(format, args...);` to `dst`.
pub(crate) fn push_print(dst: &mut Vec<Tok>, format: &str, args: &[Vec<Tok>])
    ensures
        toks_v(final(dst)@) == toks_v(old(dst)@) + print_stmt(format@, exprs_v(args@)),
{
    let ghost all = seq![seq![TokV::Lit(format@)]] + exprs_v(args@);
    let mut inner: Vec<Tok> = Vec::new();
    inner.push(Tok::Lit { text: chars_of(format), lines: at_call_site() });
    proof {
        lemma_toks_v(inner@);
        assert(all.take(1) =~= seq![seq![TokV::Lit(format@)]]);
        assert(toks_v(inner@) =~= comma_sep(all.take(1)));
    }
    let mut i: usize = 0;
    while i < args.len()
        invariant
            i <= args@.len(),
            all == seq![seq![TokV::Lit(format@)]] + exprs_v(args@),
            toks_v(inner@) == comma_sep(all.take(i + 1)),
        decreases args@.len() - i,
    {
        let ghost before = inner@;
        let comma = Tok::Punct { ch: ',', joint: false, lines: at_call_site() };
        inner.push(comma);
        proof {
            lemma_toks_v_push(before, comma);
        }
        append_toks(&mut inner, args[i].as_slice());
        proof {
            assert(all.take(i + 2) =~= all.take(i + 1).push(all[i + 1]));
            lemma_comma_sep_push(all.take(i + 1), all[i + 1]);
        }
        i = i + 1;
    }
    assert(all.take(args@.len() as int + 1) =~= all);
    let ghost before = dst@;
    let t1 = Tok::Ident { text: chars_of("println"), lines: at_call_site() };
    let t2 = Tok::Punct { ch: '!', joint: false, lines: at_call_site() };
    let t3 = Tok::Group { delim: Delim::Paren, inner: inner, lines: at_call_site(), source: None };
    let t4 = Tok::Punct { ch: ';', joint: false, lines: at_call_site() };
    dst.push(t1);
    dst.push(t2);
    dst.push(t3);
    dst.push(t4);
    proof {
        lemma_toks_v_push(before, t1);
        lemma_toks_v_push(before.push(t1), t2);
        lemma_toks_v_push(before.push(t1).push(t2), t3);
        lemma_toks_v_push(before.push(t1).push(t2).push(t3), t4);
        assert(dst@ =~= before.push(t1).push(t2).push(t3).push(t4));
    }
    assert(toks_v(dst@) =~= toks_v(old(dst)@) + print_stmt(format@, exprs_v(args@)));
}

/// The default backend: every node becomes `println!` statements that
/// trace the tree, each widget created under its parent's name.
pub struct DefaultRune {
    tokens: Vec<Tok>,
    parent_name: Vec<char>,
    log: Ghost<Seq<RuneCall>>,
}

impl DefaultRune {
    /// The statements generated so far.
    pub closed spec fn code(&self) -> Seq<TokV> {
        toks_v(self.tokens@)
    }

    /// The name new widgets are created under.
    pub closed spec fn parent(&self) -> Seq<char> {
        self.parent_name@
    }

    pub fn new() -> (r: DefaultRune)
        ensures
            r.code() == Seq::<TokV>::empty(),
            r.parent() == Seq::<char>::empty(),
            r.calls() == Seq::<RuneCall>::empty(),
            r.inv(),
    {
        let r = DefaultRune { tokens: Vec::new(), parent_name: Vec::new(), log: Ghost(Seq::empty()) };
        assert(toks_v(r.tokens@) =~= Seq::<TokV>::empty());
        r
    }

    /// Append `println!(format, args...);`.
    fn print(&mut self, format: &str, args: &[Vec<Tok>])
        ensures
            final(self).code() == old(self).code() + print_stmt(format@, args_v(args@)),
            final(self).parent() == old(self).parent(),
            final(self).log == old(self).log,
    {
        push_print(&mut self.tokens, format, args);
    }
}


impl DefaultRune {
    /// A widget's creation, setters and handler lines (`widget_stmts`).
    fn widget_stmts(&mut self, name: &[char], attrs: &[DsAttr], hs: &[DsOn])
        ensures
            final(self).code() == old(self).code() + widget_stmts(
                name@,
                attrs_v(attrs@),
                ons_v(hs@),
                old(self).parent(),
            ),
            final(self).parent() == old(self).parent(),
            final(self).log == old(self).log,
    {
        let ghost start = self.code();
        let ghost av = attrs_v(attrs@);
        let ghost hv = ons_v(hs@);
        let mut args: Vec<Vec<Tok>> = Vec::new();
        args.push(str_tok(name));
        args.push(str_tok(self.parent_name.as_slice()));
        assert(args_v(args@) =~= seq![seq![str_lit(name@)], seq![str_lit(self.parent())]]);
        self.print("\"let {} = obj::new({})\"", args.as_slice());
        let ghost head = self.code();
        let ghost aparts = Seq::new(av.len(), |i: int| crate::rune_spec::attr_stmt(name@, av[i]));
        let mut i: usize = 0;
        while i < attrs.len()
            invariant
                i <= attrs@.len(),
                av == attrs_v(attrs@),
                aparts == Seq::new(av.len(), |i: int| crate::rune_spec::attr_stmt(name@, av[i])),
                self.code() == head + flat(aparts.take(i as int)),
                self.parent() == old(self).parent(),
                self.log == old(self).log,
            decreases attrs@.len() - i,
        {
            let a = &attrs[i];
            let label = match &a.name {
                Some(n) => str_tok(n.as_slice()),
                None => str_tok(chars_of("<positional>").as_slice()),
            };
            let mut args: Vec<Vec<Tok>> = Vec::new();
            args.push(str_tok(name));
            args.push(label);
            args.push(crate::token::toks_clone(a.value.as_slice()));
            assert(args_v(args@) =~= seq![
                seq![str_lit(name@)],
                seq![str_lit(attr_label(av[i as int]))],
                av[i as int].value,
            ]);
            self.print("\"{}.set_{}({:?})\"", args.as_slice());
            proof {
                assert(aparts.take(i + 1) =~= aparts.take(i as int).push(aparts[i as int]));
                lemma_flat_push(aparts.take(i as int), aparts[i as int]);
            }
            i = i + 1;
        }
        assert(aparts.take(av.len() as int) =~= aparts);
        let ghost mid = self.code();
        let ghost hparts = Seq::new(hv.len(), |i: int| crate::rune_spec::on_stmt(name@, hv[i]));
        let mut k: usize = 0;
        while k < hs.len()
            invariant
                k <= hs@.len(),
                hv == ons_v(hs@),
                hparts == Seq::new(hv.len(), |i: int| crate::rune_spec::on_stmt(name@, hv[i])),
                self.code() == mid + flat(hparts.take(k as int)),
                self.parent() == old(self).parent(),
                self.log == old(self).log,
            decreases hs@.len() - k,
        {
            let h = &hs[k];
            let n = h.args.len();
            let mut arity: Vec<Tok> = Vec::new();
            arity.push(Tok::Lit { text: usize_lit_text(n), lines: at_call_site() });
            proof {
                lemma_toks_v(arity@);
                assert(hv[k as int] == crate::ds_node::on_v(hs@[k as int]));
                assert(hv[k as int].args.len() == n);
                assert(toks_v(arity@) =~= seq![usize_lit(n as nat)]);
            }
            let mut args: Vec<Vec<Tok>> = Vec::new();
            args.push(str_tok(name));
            args.push(str_tok(h.name.as_slice()));
            args.push(arity);
            assert(args_v(args@) =~= seq![
                seq![str_lit(name@)],
                seq![str_lit(hv[k as int].name)],
                seq![usize_lit(hv[k as int].args.len())],
            ]);
            self.print("\"{}.on_{}({} args)\"", args.as_slice());
            proof {
                assert(hparts.take(k + 1) =~= hparts.take(k as int).push(hparts[k as int]));
                lemma_flat_push(hparts.take(k as int), hparts[k as int]);
            }
            k = k + 1;
        }
        assert(hparts.take(hv.len() as int) =~= hparts);
        assert(self.code() =~= start + widget_stmts(name@, av, hv, old(self).parent()));
    }
}


impl DefaultRune {
    /// `println!(format, "<text of toks>");`
    fn print_text(&mut self, format: &str, toks: &[Tok])
        ensures
            final(self).code() == old(self).code() + print_stmt(
                format@,
                seq![seq![str_lit(text_of(toks_v(toks@)))]],
            ),
            final(self).parent() == old(self).parent(),
            final(self).log == old(self).log,
    {
        let t = tok_text(toks);
        self.print_name(format, t.as_slice());
    }

    /// `println!(format, "<s>");`
    fn print_name(&mut self, format: &str, s: &[char])
        ensures
            final(self).code() == old(self).code() + print_stmt(format@, seq![seq![str_lit(s@)]]),
            final(self).parent() == old(self).parent(),
            final(self).log == old(self).log,
    {
        let mut args: Vec<Vec<Tok>> = Vec::new();
        args.push(str_tok(s));
        assert(args_v(args@) =~= seq![seq![str_lit(s@)]]);
        self.print(format, args.as_slice());
    }

    /// A closing line `println!(format);`.
    fn print_close(&mut self, format: &str)
        ensures
            final(self).code() == old(self).code() + print_stmt(format@, Seq::empty()),
            final(self).parent() == old(self).parent(),
            final(self).log == old(self).log,
    {
        let args: Vec<Vec<Tok>> = Vec::new();
        assert(args_v(args@) =~= Seq::<Seq<TokV>>::empty());
        self.print(format, args.as_slice());
    }

    /// Siblings in order (`emit_all`).
    fn emit_children(&mut self, kids: &[DsTree])
        ensures
            final(self).code() == old(self).code() + emit_all(trees_v(kids@), old(self).parent()).0,
            final(self).parent() == emit_all(trees_v(kids@), old(self).parent()).1,
            final(self).log == old(self).log,
        decreases kids@, 1int,
    {
        let ghost tv = trees_v(kids@);
        let ghost p0 = self.parent();
        let ghost start = self.code();
        proof {
            lemma_trees_v(kids@);
        }
        let mut i: usize = 0;
        while i < kids.len()
            invariant
                i <= kids@.len(),
                tv == trees_v(kids@),
                tv.len() == kids@.len(),
                forall|j: int| 0 <= j < kids@.len() ==> #[trigger] tv[j] == tree_v(kids@[j]),
                self.code() == start + emit_all(tv.take(i as int), p0).0,
                self.parent() == emit_all(tv.take(i as int), p0).1,
                self.log == old(self).log,
            decreases kids@.len() - i,
        {
            assert(decreases_to!(kids@ => kids@[i as int]));
            proof {
                assert(tv.take(i + 1).drop_last() =~= tv.take(i as int));
            }
            self.emit_tree(&kids[i]);
            i = i + 1;
        }
        assert(tv.take(kids@.len() as int) =~= tv);
    }

    /// The arms of a `match` (`emit_arms`).
    fn emit_arms(&mut self, arms: &[DsMatchArm])
        ensures
            final(self).code() == old(self).code() + emit_arms(arms_v(arms@), old(self).parent()).0,
            final(self).parent() == emit_arms(arms_v(arms@), old(self).parent()).1,
            final(self).log == old(self).log,
        decreases arms@, 1int,
    {
        let ghost p0 = self.parent();
        let ghost start = self.code();
        let mut i: usize = 0;
        while i < arms.len()
            invariant
                i <= arms@.len(),
                self.code() == start + emit_arms(arms_v(arms@.take(i as int)), p0).0,
                self.parent() == emit_arms(arms_v(arms@.take(i as int)), p0).1,
                self.log == old(self).log,
            decreases arms@.len() - i,
        {
            assert(decreases_to!(arms@ => arms@[i as int]));
            proof {
                assert(arms@.take(i + 1) =~= arms@.take(i as int).push(arms@[i as int]));
                lemma_arms_v_push(arms@.take(i as int), arms@[i as int]);
                assert(arms_v(arms@.take(i + 1)).drop_last() =~= arms_v(arms@.take(i as int)));
            }
            let arm = &arms[i];
            self.print_text("\"  {} => {{\"", arm.pat.as_slice());
            self.emit_children(arm.children.as_slice());
            self.print_close("\"  }}\"");
            i = i + 1;
        }
        assert(arms@.take(arms@.len() as int) =~= arms@);
    }

    /// One tree (`emit`).
    fn emit_tree(&mut self, t: &DsTree)
        ensures
            final(self).code() == old(self).code() + emit(t@, old(self).parent()).0,
            final(self).parent() == emit(t@, old(self).parent()).1,
            final(self).log == old(self).log,
        decreases t, 2int,
    {
        proof {
            lemma_tree_v(*t);
        }
        match &t.node {
            DsNode::Root(expr) => {
                self.root_stmt(expr.as_slice());
                self.emit_children(t.children.as_slice());
            },
            DsNode::Widget(w) => {
                self.widget_stmts(w.name.as_slice(), w.attrs.attrs.as_slice(), w.on_handlers.as_slice());
                let mut prev: Vec<char> = Vec::new();
                crate::text::push_all(&mut prev, self.parent_name.as_slice());
                let mut inner: Vec<char> = Vec::new();
                crate::text::push_all(&mut inner, w.name.as_slice());
                self.parent_name = inner;
                self.emit_children(t.children.as_slice());
                self.parent_name = prev;
            },
            DsNode::If(c) => {
                self.print_text("\"if {} {{\"", c.condition.as_slice());
                self.emit_children(t.children.as_slice());
                self.print_close("\"}}\"");
                match &t.else_branch {
                    Some(b) => {
                        self.emit_tree(&**b);
                    },
                    None => {},
                }
            },
            DsNode::Else => {
                self.emit_children(t.children.as_slice());
            },
            DsNode::Iter(it) => {
                let mut args: Vec<Vec<Tok>> = Vec::new();
                args.push(str_tok(it.variable.as_slice()));
                let txt = tok_text(it.iterable.as_slice());
                args.push(str_tok(txt.as_slice()));
                assert(args_v(args@) =~= seq![
                    seq![str_lit(it.variable@)],
                    seq![str_lit(text_of(toks_v(it.iterable@)))],
                ]);
                self.print("\"for {} in {} {{\"", args.as_slice());
                self.emit_children(t.children.as_slice());
                self.print_close("\"}}\"");
            },
            DsNode::Niche(n) => {
                self.print_name("\"@{} {{\"", n.name.as_slice());
                self.emit_children(t.children.as_slice());
                self.print_close("\"}}\"");
            },
            DsNode::Match(m) => {
                self.print_text("\"match {} {{\"", m.scrutinee.as_slice());
                self.emit_arms(m.arms.as_slice());
                self.print_close("\"}}\"");
            },
            DsNode::CodeBlock(c) => {
                self.print_text("\"${{ {} }}\"", c.tokens.as_slice());
            },
        }
    }

    /// The root's statement: the parent expression, under the name `parent`.
    fn root_stmt(&mut self, expr: &[Tok])
        ensures
            final(self).code() == old(self).code() + root_stmt(toks_v(expr@)),
            final(self).parent() == "parent"@,
            final(self).log == old(self).log,
    {
        let mut args: Vec<Vec<Tok>> = Vec::new();
        args.push(str_tok(chars_of("parent").as_slice()));
        args.push(crate::token::toks_clone(expr));
        assert(args_v(args@) =~= seq![seq![str_lit("parent"@)], toks_v(expr@)]);
        self.print("\"let {} = {:?}\"", args.as_slice());
        self.parent_name = chars_of("parent");
    }
}


/// Replaying one more call appends its code.
proof fn lemma_replay_push(calls: Seq<RuneCall>, c: RuneCall)
    ensures
        replay(calls.push(c), (Seq::empty(), Seq::empty())) == (
            replay(calls, (Seq::empty(), Seq::empty())).0 + call_code(
                c,
                replay(calls, (Seq::empty(), Seq::empty())).1,
            ).0,
            call_code(c, replay(calls, (Seq::empty(), Seq::empty())).1).1,
        ),
{
    assert(calls.push(c).drop_last() =~= calls);
}

impl DsRune for DefaultRune {
    closed spec fn calls(&self) -> Seq<RuneCall> {
        self.log@
    }

    /// The code and parent name are what the calls so far generate.
    closed spec fn inv(&self) -> bool {
        replay(self.log@, (Seq::empty(), Seq::empty())) == (self.code(), self.parent())
    }

    fn inscribe_root(&mut self, parent_expr: &[Tok])
        ensures
            final(self).code() == old(self).code() + root_stmt(toks_v(parent_expr@)),
            final(self).parent() == "parent"@,
    {
        self.root_stmt(parent_expr);
        self.log = Ghost(self.log@.push(RuneCall::Root(toks_v(parent_expr@))));
        proof {
            lemma_replay_push(old(self).log@, self.log@.last());
            assert(self.log@.drop_last() =~= old(self).log@);
            assert(self.code() =~= old(self).code() + call_code(self.log@.last(), old(self).parent()).0);
        }
    }

    fn inscribe_widget(
        &mut self,
        name: &[char],
        attrs: &[DsAttr],
        enchants: &[Vec<Tok>],
        on_handlers: &[DsOn],
        children: &[DsTree],
    )
        ensures
            final(self).code() == old(self).code() + crate::rune_spec::widget_code(
                name@,
                attrs_v(attrs@),
                ons_v(on_handlers@),
                trees_v(children@),
                old(self).parent(),
            ).0,
            final(self).parent() == old(self).parent(),
    {
        self.widget_stmts(name, attrs, on_handlers);
        let mut prev: Vec<char> = Vec::new();
        crate::text::push_all(&mut prev, self.parent_name.as_slice());
        let mut inner: Vec<char> = Vec::new();
        crate::text::push_all(&mut inner, name);
        self.parent_name = inner;
        self.emit_children(children);
        self.parent_name = prev;
        self.log = Ghost(
            self.log@.push(
                RuneCall::Widget(
                    name@,
                    attrs_v(attrs@),
                    exprs_v(enchants@),
                    ons_v(on_handlers@),
                    trees_v(children@),
                ),
            ),
        );
        proof {
            lemma_replay_push(old(self).log@, self.log@.last());
            assert(self.log@.drop_last() =~= old(self).log@);
            assert(self.code() =~= old(self).code() + call_code(self.log@.last(), old(self).parent()).0);
        }
    }

    fn inscribe_if(
        &mut self,
        condition: &[Tok],
        reactive: bool,
        children: &[DsTree],
        else_branch: Option<&DsTree>,
    )
        ensures
            final(self).code() == old(self).code() + crate::rune_spec::if_code(
                toks_v(condition@),
                trees_v(children@),
                opt_tree_v(else_branch),
                old(self).parent(),
            ).0,
            final(self).parent() == crate::rune_spec::if_code(
                toks_v(condition@),
                trees_v(children@),
                opt_tree_v(else_branch),
                old(self).parent(),
            ).1,
    {
        self.print_text("\"if {} {{\"", condition);
        self.emit_children(children);
        self.print_close("\"}}\"");
        match else_branch {
            Some(b) => {
                self.emit_tree(b);
            },
            None => {},
        }
        self.log = Ghost(
            self.log@.push(
                RuneCall::If(toks_v(condition@), reactive, trees_v(children@), opt_tree_v(else_branch)),
            ),
        );
        proof {
            lemma_replay_push(old(self).log@, self.log@.last());
            assert(self.log@.drop_last() =~= old(self).log@);
            assert(self.code() =~= old(self).code() + call_code(self.log@.last(), old(self).parent()).0);
        }
    }

    fn inscribe_iter(
        &mut self,
        iterable: &[Tok],
        variable: &[char],
        reactive: bool,
        key: Option<&Vec<Tok>>,
        children: &[DsTree],
    )
        ensures
            final(self).code() == old(self).code() + crate::rune_spec::iter_code(
                toks_v(iterable@),
                variable@,
                trees_v(children@),
                old(self).parent(),
            ).0,
            final(self).parent() == crate::rune_spec::iter_code(
                toks_v(iterable@),
                variable@,
                trees_v(children@),
                old(self).parent(),
            ).1,
    {
        let mut args: Vec<Vec<Tok>> = Vec::new();
        args.push(str_tok(variable));
        let txt = tok_text(iterable);
        args.push(str_tok(txt.as_slice()));
        assert(args_v(args@) =~= seq![
            seq![str_lit(variable@)],
            seq![str_lit(text_of(toks_v(iterable@)))],
        ]);
        self.print("\"for {} in {} {{\"", args.as_slice());
        self.emit_children(children);
        self.print_close("\"}}\"");
        self.log = Ghost(
            self.log@.push(
                RuneCall::Iter(
                    toks_v(iterable@),
                    variable@,
                    reactive,
                    opt_key_v(key),
                    trees_v(children@),
                ),
            ),
        );
        proof {
            lemma_replay_push(old(self).log@, self.log@.last());
            assert(self.log@.drop_last() =~= old(self).log@);
            assert(self.code() =~= old(self).code() + call_code(self.log@.last(), old(self).parent()).0);
        }
    }

    fn inscribe_niche(&mut self, name: &[char], is_declaration: bool, children: &[DsTree])
        ensures
            final(self).code() == old(self).code() + crate::rune_spec::niche_code(
                name@,
                trees_v(children@),
                old(self).parent(),
            ).0,
            final(self).parent() == crate::rune_spec::niche_code(
                name@,
                trees_v(children@),
                old(self).parent(),
            ).1,
    {
        self.print_name("\"@{} {{\"", name);
        self.emit_children(children);
        self.print_close("\"}}\"");
        self.log = Ghost(self.log@.push(RuneCall::Niche(name@, is_declaration, trees_v(children@))));
        proof {
            lemma_replay_push(old(self).log@, self.log@.last());
            assert(self.log@.drop_last() =~= old(self).log@);
            assert(self.code() =~= old(self).code() + call_code(self.log@.last(), old(self).parent()).0);
        }
    }

    fn inscribe_match(&mut self, scrutinee: &[Tok], reactive: bool, arms: &[DsMatchArm])
        ensures
            final(self).code() == old(self).code() + crate::rune_spec::match_code(
                toks_v(scrutinee@),
                arms_v(arms@),
                old(self).parent(),
            ).0,
            final(self).parent() == crate::rune_spec::match_code(
                toks_v(scrutinee@),
                arms_v(arms@),
                old(self).parent(),
            ).1,
    {
        self.print_text("\"match {} {{\"", scrutinee);
        self.emit_arms(arms);
        self.print_close("\"}}\"");
        self.log = Ghost(self.log@.push(RuneCall::Match(toks_v(scrutinee@), reactive, arms_v(arms@))));
        proof {
            lemma_replay_push(old(self).log@, self.log@.last());
            assert(self.log@.drop_last() =~= old(self).log@);
            assert(self.code() =~= old(self).code() + call_code(self.log@.last(), old(self).parent()).0);
        }
    }

    fn inscribe_code_block(&mut self, tokens: &[Tok])
        ensures
            final(self).code() == old(self).code() + crate::rune_spec::code_block_stmt(toks_v(tokens@)),
            final(self).parent() == old(self).parent(),
    {
        self.print_text("\"${{ {} }}\"", tokens);
        self.log = Ghost(self.log@.push(RuneCall::CodeBlock(toks_v(tokens@))));
        proof {
            lemma_replay_push(old(self).log@, self.log@.last());
            assert(self.log@.drop_last() =~= old(self).log@);
            assert(self.code() =~= old(self).code() + call_code(self.log@.last(), old(self).parent()).0);
        }
    }

    fn seal(self) -> (r: Vec<Tok>)
        ensures
            toks_v(r@) == self.code(),
    {
        self.tokens
    }
}

impl DefaultRune {
    /// What `decipher` generates with this rune: the statements for `t`
    /// (`emit`), the parent name threaded through, and the calls that the
    /// walk over `t` would make recorded.
    pub fn inscribe_tree(&mut self, t: &DsTree)
        requires
            old(self).inv(),
        ensures
            final(self).inv(),
            final(self).code() == old(self).code() + emit(t@, old(self).parent()).0,
            final(self).parent() == emit(t@, old(self).parent()).1,
            final(self).calls() == old(self).calls() + deciphered(t@),
    {
        self.emit_tree(t);
        self.log = Ghost(self.log@ + deciphered(t@));
        proof {
            lemma_replay_append(old(self).log@, deciphered(t@), (Seq::empty(), Seq::empty()));
            law_replay_deciphered(t@, old(self).code(), old(self).parent());
        }
    }
}


impl Default for DefaultRune {
    fn default() -> (r: DefaultRune)
        ensures
            r.code() == Seq::<TokV>::empty(),
            r.parent() == Seq::<char>::empty(),
            r.calls() == Seq::<RuneCall>::empty(),
            r.inv(),
    {
        DefaultRune::new()
    }
}

/// Walking a tree with the default rune generates `emit`'s statements for
/// it: when `decipher` has handed the rune the calls for `t` (its
/// `ensures`), the rune's code has grown by `emit`'s code for `t` under the
/// parent it had, and its parent name is `emit`'s.
pub proof fn law_decipher_default_rune_is_emit(before: DefaultRune, after: DefaultRune, t: crate::ds_node::TreeV)
    requires
        before.inv(),
        after.inv(),
        after.calls() == before.calls() + deciphered(t),
    ensures
        after.code() == before.code() + emit(t, before.parent()).0,
        after.parent() == emit(t, before.parent()).1,
{
    lemma_replay_append(before.log@, deciphered(t), (Seq::empty(), Seq::empty()));
    law_replay_deciphered(t, before.code(), before.parent());
}

/// The default rune's code for a `ui!` body: the parent expression under
/// the name `parent`, then the content tree created under it.
pub fn expand(root: &crate::ds_node::DsRoot) -> (r: Vec<Tok>)
    ensures
        toks_v(r@) == root_stmt(root@.parent) + emit(root@.content, "parent"@).0,
{
    let mut rune = DefaultRune::new();
    rune.inscribe_root(root.get_parent());
    rune.inscribe_tree(root.get_content());
    let r = rune.seal();
    assert(toks_v(r@) =~= root_stmt(root@.parent) + emit(root@.content, "parent"@).0);
    r
}

} // verus!
