//! The first form of the DSL, for the xwrapup backend: widgets only, each
//! `Name (attr: value, ...) { children }`, with `if (cond) { widgets }`
//! groups inside a body. Every widget records the name of the widget it was
//! written in (`screen` at the top and inside an `if`), and generates
//! `println!` statements that create it under that parent.

use vstd::prelude::*;
use crate::token::{Delim, Tok, TokV, at_group, at_ident, at_punct, at_word, toks_v, is_group, is_ident, is_punct, is_word, ident_text, toks_range, lemma_toks_v};
use crate::grammar;
use crate::grammar::{DsError, ident_of, inner_of, span_v};
use crate::text::chars_of;
use crate::rune_spec::{flat, print_stmt, str_lit};
use crate::rune::{at_call_site, lemma_flat_push, push_print, str_tok};
use crate::ds_node::exprs_v;

verus! {

broadcast use vstd::seq_lib::group_seq_properties;

/// `name: value`.
pub struct XwAttrV {
    pub name: Seq<char>,
    pub value: Seq<TokV>,
}

/// A widget with the name of the widget it was written in.
pub struct XwWidgetV {
    pub name: Seq<char>,
    pub parent: Seq<char>,
    pub attrs: Seq<XwAttrV>,
    pub children: Seq<XwWidgetV>,
}

/// How parsing from a position ends: with a value and the position after
/// it, refused, or stalled — a body item that is neither a widget nor an
/// `if` is never consumed, so the body is never finished.
pub enum XwParsed<T> {
    Done(T, int),
    Failed(DsError),
    Stalled,
}

/// Attributes `name: value` filling `s` from `pos`, each optionally
/// followed by `,`, appended to `acc`.
pub open spec fn xw_attrs(s: Seq<Tok>, pos: int, acc: Seq<XwAttrV>) -> Result<Seq<XwAttrV>, DsError>
    decreases s.len() - pos,
{
    if pos < 0 || pos >= s.len() {
        Ok(acc)
    } else if !at_ident(s, pos) || !at_punct(s, pos + 1, ':') {
        Err(DsError::Expected)
    } else {
        match grammar::expr_end(s, pos + 2, true) {
            Err(e) => Err(e),
            Ok(e) => {
                let a = XwAttrV { name: ident_of(s[pos]), value: span_v(s, pos + 2, e) };
                let p = if at_punct(s, e, ',') {
                    e + 1
                } else {
                    e
                };
                xw_attrs(s, p, acc.push(a))
            },
        }
    }
}

/// A widget at `s[pos]` written inside `parent`.
pub open spec fn xw_widget(s: Seq<Tok>, pos: int, parent: Seq<char>) -> XwParsed<XwWidgetV>
    decreases s, s.len() - pos, 1int,
{
    if !at_ident(s, pos) {
        XwParsed::Failed(DsError::Expected)
    } else {
        let has_attrs = at_group(s, pos + 1, Delim::Paren);
        let ares = if has_attrs {
            xw_attrs(inner_of(s[pos + 1]), 0, Seq::empty())
        } else {
            Ok(Seq::empty())
        };
        let p = if has_attrs {
            pos + 2
        } else {
            pos + 1
        };
        match ares {
            Err(e) => XwParsed::Failed(e),
            Ok(attrs) => if !at_group(s, p, Delim::Brace) {
                XwParsed::Failed(DsError::Expected)
            } else {
                proof {
                    assert(decreases_to!(s => s[p]));
                }
                match xw_body(inner_of(s[p]), 0, ident_of(s[pos]), Seq::empty()) {
                    XwParsed::Done(kids, _) => XwParsed::Done(
                        XwWidgetV { name: ident_of(s[pos]), parent: parent, attrs: attrs, children: kids },
                        p + 1,
                    ),
                    XwParsed::Failed(e) => XwParsed::Failed(e),
                    XwParsed::Stalled => XwParsed::Stalled,
                }
            },
        }
    }
}

/// A widget's body from `s[pos]`: child widgets (written inside `name`)
/// and `if (cond) { ... }` groups, appended to `acc`.
pub open spec fn xw_body(s: Seq<Tok>, pos: int, name: Seq<char>, acc: Seq<XwWidgetV>) -> XwParsed<
    Seq<XwWidgetV>,
>
    decreases s, s.len() - pos, 2int,
{
    if pos < 0 || pos >= s.len() {
        XwParsed::Done(acc, pos)
    } else if at_ident(s, pos) {
        match xw_widget(s, pos, name) {
            XwParsed::Done(w, p) => if p <= pos || p > s.len() {
                XwParsed::Failed(DsError::Expected)
            } else {
                xw_body(s, p, name, acc.push(w))
            },
            XwParsed::Failed(e) => XwParsed::Failed(e),
            XwParsed::Stalled => XwParsed::Stalled,
        }
    } else if at_word(s, pos, "if"@) {
        match grammar::expr_end(s, pos + 1, true) {
            Err(e) => XwParsed::Failed(e),
            Ok(e) => if !at_group(s, e, Delim::Brace) {
                XwParsed::Failed(DsError::Expected)
            } else {
                proof {
                    assert(decreases_to!(s => s[e]));
                }
                match xw_if_body(inner_of(s[e]), 0, acc) {
                    XwParsed::Done(acc2, _) => xw_body(s, e + 1, name, acc2),
                    XwParsed::Failed(x) => XwParsed::Failed(x),
                    XwParsed::Stalled => XwParsed::Stalled,
                }
            },
        }
    } else {
        XwParsed::Stalled
    }
}

/// The widgets inside an `if` group, each written inside `screen`.
pub open spec fn xw_if_body(s: Seq<Tok>, pos: int, acc: Seq<XwWidgetV>) -> XwParsed<Seq<XwWidgetV>>
    decreases s, s.len() - pos, 2int,
{
    if pos < 0 || pos >= s.len() {
        XwParsed::Done(acc, pos)
    } else {
        match xw_widget(s, pos, "screen"@) {
            XwParsed::Done(w, p) => if p <= pos || p > s.len() {
                XwParsed::Failed(DsError::Expected)
            } else {
                xw_if_body(s, p, acc.push(w))
            },
            XwParsed::Failed(e) => XwParsed::Failed(e),
            XwParsed::Stalled => XwParsed::Stalled,
        }
    }
}

/// A whole token stream as one top-level widget (written inside `screen`).
pub open spec fn xw_root(s: Seq<Tok>) -> XwParsed<XwWidgetV> {
    match xw_widget(s, 0, "screen"@) {
        XwParsed::Done(w, p) => if p == s.len() {
            XwParsed::Done(w, p)
        } else {
            XwParsed::Failed(DsError::Unexpected)
        },
        XwParsed::Failed(e) => XwParsed::Failed(e),
        XwParsed::Stalled => XwParsed::Stalled,
    }
}

/// The statements for a widget: its creation under its parent, one setter
/// per attribute, then its children's statements.
pub open spec fn xw_code(w: XwWidgetV) -> Seq<TokV>
    decreases w,
{
    print_stmt("\"let {} = obj::new({})\""@, seq![seq![str_lit(w.name)], seq![str_lit(w.parent)]])
        + flat(Seq::new(w.attrs.len(), |i: int| xw_setter(w.name, w.attrs[i]))) + xw_codes(
        w.children,
    )
}

/// Sibling widgets' statements in order.
pub open spec fn xw_codes(ws: Seq<XwWidgetV>) -> Seq<TokV>
    decreases ws,
{
    if ws.len() == 0 {
        Seq::empty()
    } else {
        xw_codes(ws.drop_last()) + xw_code(ws.last())
    }
}

/// One attribute setter.
pub open spec fn xw_setter(name: Seq<char>, a: XwAttrV) -> Seq<TokV> {
    print_stmt("\"{}.set_{}({:?})\""@, seq![seq![str_lit(name)], seq![str_lit(a.name)], a.value])
}

/// An attribute on its own: `println!("setAttribute({}, {})", "name", stringify!(value));`
pub open spec fn xw_attr_code(a: XwAttrV) -> Seq<TokV> {
    print_stmt(
        "\"setAttribute({}, {})\""@,
        seq![
            seq![str_lit(a.name)],
            seq![
                TokV::Ident("stringify"@),
                TokV::Punct('!', false),
                TokV::Group(Delim::Paren, a.value),
            ],
        ],
    )
}

// ---------------------------------------------------------------- executable

/// `name: value`.
#[derive(Debug)]
pub struct Attr {
    pub name: Vec<char>,
    pub value: Vec<Tok>,
}

/// A widget of the first DSL form.
#[derive(Debug)]
pub struct Widget {
    pub name: Vec<char>,
    pub parent: Vec<char>,
    pub attrs: Vec<Attr>,
    pub children: Vec<Widget>,
}

pub open spec fn xw_attr_v(a: Attr) -> XwAttrV {
    XwAttrV { name: a.name@, value: toks_v(a.value@) }
}

pub open spec fn xw_attrs_v(s: Seq<Attr>) -> Seq<XwAttrV> {
    Seq::new(s.len(), |i: int| xw_attr_v(s[i]))
}

pub open spec fn xw_widget_v(w: Widget) -> XwWidgetV
    decreases w,
{
    XwWidgetV {
        name: w.name@,
        parent: w.parent@,
        attrs: xw_attrs_v(w.attrs@),
        children: xw_widgets_v(w.children@),
    }
}

pub open spec fn xw_widgets_v(s: Seq<Widget>) -> Seq<XwWidgetV>
    decreases s,
{
    if s.len() == 0 {
        Seq::empty()
    } else {
        xw_widgets_v(s.drop_last()).push(xw_widget_v(s.last()))
    }
}

impl View for Attr {
    type V = XwAttrV;

    open spec fn view(&self) -> XwAttrV {
        xw_attr_v(*self)
    }
}

impl View for Widget {
    type V = XwWidgetV;

    open spec fn view(&self) -> XwWidgetV {
        xw_widget_v(*self)
    }
}

pub proof fn lemma_xw_widgets_v(s: Seq<Widget>)
    ensures
        xw_widgets_v(s).len() == s.len(),
        forall|i: int| 0 <= i < s.len() ==> #[trigger] xw_widgets_v(s)[i] == xw_widget_v(s[i]),
    decreases s.len(),
{
    if s.len() > 0 {
        lemma_xw_widgets_v(s.drop_last());
    }
}

pub proof fn lemma_xw_widgets_v_push(s: Seq<Widget>, w: Widget)
    ensures
        xw_widgets_v(s.push(w)) == xw_widgets_v(s).push(xw_widget_v(w)),
{
    assert(s.push(w).drop_last() =~= s);
}


/// Why parsing a widget stopped: refused, or stalled on a body item that
/// is never consumed.
#[derive(PartialEq, Eq, Structural, Clone, Copy, Debug)]
pub enum XwStop {
    Refused(DsError),
    Stalled,
}

/// A stop agrees with the grammar's outcome.
pub open spec fn xw_stop_agrees<T>(e: XwStop, g: XwParsed<T>) -> bool {
    match (e, g) {
        (XwStop::Refused(a), XwParsed::Failed(b)) => a == b,
        (XwStop::Stalled, XwParsed::Stalled) => true,
        _ => false,
    }
}

/// A parse result agrees with the grammar's outcome.
pub open spec fn xw_agrees<T: View>(r: Result<(T, usize), XwStop>, g: XwParsed<T::V>) -> bool {
    match r {
        Ok((x, p)) => g matches XwParsed::Done(v, q) && x@ == v && p as int == q,
        Err(e) => xw_stop_agrees(e, g),
    }
}

/// A parsed list agrees with the grammar's outcome.
pub open spec fn xw_agrees_list(r: Result<Vec<Widget>, XwStop>, g: XwParsed<Seq<XwWidgetV>>) -> bool {
    match r {
        Ok(v) => g matches XwParsed::Done(w, _) && xw_widgets_v(v@) == w,
        Err(e) => xw_stop_agrees(e, g),
    }
}

/// A widget ends after its body: the position it stops at lies past its start.
pub proof fn lemma_xw_widget_advances(s: Seq<Tok>, pos: int, parent: Seq<char>)
    ensures
        xw_widget(s, pos, parent) matches XwParsed::Done(_, p) ==> pos < p <= s.len(),
{
}

/// The attributes inside a widget's parentheses (`xw_attrs`).
fn parse_attrs(s: &[Tok]) -> (r: Result<Vec<Attr>, DsError>)
    ensures
        match (r, xw_attrs(s@, 0, Seq::empty())) {
            (Ok(v), Ok(w)) => xw_attrs_v(v@) == w,
            (Err(a), Err(b)) => a == b,
            _ => false,
        },
{
    let mut out: Vec<Attr> = Vec::new();
    let mut pos: usize = 0;
    assert(xw_attrs_v(out@) =~= Seq::<XwAttrV>::empty());
    while pos < s.len()
        invariant
            pos <= s@.len(),
            xw_attrs(s@, 0, Seq::empty()) == xw_attrs(s@, pos as int, xw_attrs_v(out@)),
        decreases s@.len() - pos,
    {
        if !is_ident(s, pos) || !is_punct(s, pos + 1, ':') {
            return Err(DsError::Expected);
        }
        let e = match crate::parse::expr_end(s, pos + 2, true) {
            Ok(e) => e,
            Err(x) => {
                return Err(x);
            },
        };
        let a = Attr { name: ident_text(s, pos), value: toks_range(s, pos + 2, e) };
        let ghost before = out@;
        out.push(a);
        proof {
            assert(xw_attrs_v(out@) =~= xw_attrs_v(before).push(xw_attr_v(a)));
        }
        pos = if is_punct(s, e, ',') {
            e + 1
        } else {
            e
        };
    }
    Ok(out)
}

/// A widget at `s[pos]` written inside `parent` (`xw_widget`).
fn parse_with_parent(s: &[Tok], pos: usize, parent: &[char]) -> (r: Result<(Widget, usize), XwStop>)
    ensures
        xw_agrees(r, xw_widget(s@, pos as int, parent@)),
    decreases s@, s@.len() - pos, 1int,
{
    if !is_ident(s, pos) {
        return Err(XwStop::Refused(DsError::Expected));
    }
    let has_attrs = is_group(s, pos + 1, Delim::Paren);
    let attrs = if has_attrs {
        match &s[pos + 1] {
            Tok::Group { inner, .. } => match parse_attrs(inner.as_slice()) {
                Ok(a) => a,
                Err(e) => {
                    return Err(XwStop::Refused(e));
                },
            },
            _ => {
                return Err(XwStop::Refused(DsError::Expected));
            },
        }
    } else {
        let v: Vec<Attr> = Vec::new();
        assert(xw_attrs_v(v@) =~= Seq::<XwAttrV>::empty());
        v
    };
    let p = if has_attrs {
        pos + 2
    } else {
        pos + 1
    };
    if !is_group(s, p, Delim::Brace) {
        return Err(XwStop::Refused(DsError::Expected));
    }
    let name = ident_text(s, pos);
    match &s[p] {
        Tok::Group { inner, .. } => {
            assert(decreases_to!(s@ => s@[p as int]));
            let kids = match parse_body(inner.as_slice(), name.as_slice()) {
                Ok(k) => k,
                Err(e) => {
                    return Err(e);
                },
            };
            let mut par: Vec<char> = Vec::new();
            crate::text::push_all(&mut par, parent);
            let w = Widget { name: name, parent: par, attrs: attrs, children: kids };
            Ok((w, p + 1))
        },
        _ => Err(XwStop::Refused(DsError::Expected)),
    }
}

/// A widget's body (`xw_body` over all of `s`).
fn parse_body(s: &[Tok], name: &[char]) -> (r: Result<Vec<Widget>, XwStop>)
    ensures
        xw_agrees_list(r, xw_body(s@, 0, name@, Seq::empty())),
    decreases s@, s@.len(), 2int,
{
    let mut out: Vec<Widget> = Vec::new();
    let mut pos: usize = 0;
    assert(xw_widgets_v(out@) =~= Seq::<XwWidgetV>::empty());
    while pos < s.len()
        invariant
            pos <= s@.len(),
            xw_body(s@, 0, name@, Seq::empty()) == xw_body(s@, pos as int, name@, xw_widgets_v(out@)),
        decreases s@.len() - pos,
    {
        if is_ident(s, pos) {
            proof {
                lemma_xw_widget_advances(s@, pos as int, name@);
            }
            let (w, p) = match parse_with_parent(s, pos, name) {
                Ok(x) => x,
                Err(e) => {
                    return Err(e);
                },
            };
            let ghost before = out@;
            out.push(w);
            proof {
                lemma_xw_widgets_v_push(before, w);
            }
            pos = p;
        } else if is_word(s, pos, "if") {
            let e = match crate::parse::expr_end(s, pos + 1, true) {
                Ok(e) => e,
                Err(x) => {
                    return Err(XwStop::Refused(x));
                },
            };
            if !is_group(s, e, Delim::Brace) {
                return Err(XwStop::Refused(DsError::Expected));
            }
            match &s[e] {
                Tok::Group { inner, .. } => {
                    assert(decreases_to!(s@ => s@[e as int]));
                    match parse_if_body(inner.as_slice(), &mut out) {
                        Ok(()) => {},
                        Err(x) => {
                            return Err(x);
                        },
                    }
                    pos = e + 1;
                },
                _ => {
                    return Err(XwStop::Refused(DsError::Expected));
                },
            }
        } else {
            return Err(XwStop::Stalled);
        }
    }
    Ok(out)
}


/// The widgets of an `if` group, each written inside `screen`, appended to
/// `out` (`xw_if_body`).
fn parse_if_body(s: &[Tok], out: &mut Vec<Widget>) -> (r: Result<(), XwStop>)
    ensures
        match r {
            Ok(()) => xw_if_body(s@, 0, xw_widgets_v(old(out)@)) matches XwParsed::Done(w, _)
                && xw_widgets_v(final(out)@) == w,
            Err(e) => xw_stop_agrees(e, xw_if_body(s@, 0, xw_widgets_v(old(out)@))),
        },
    decreases s@, s@.len(), 2int,
{
    let ghost start = xw_widgets_v(out@);
    let screen = chars_of("screen");
    let mut pos: usize = 0;
    while pos < s.len()
        invariant
            pos <= s@.len(),
            screen@ == "screen"@,
            start == xw_widgets_v(old(out)@),
            xw_if_body(s@, 0, start) == xw_if_body(s@, pos as int, xw_widgets_v(out@)),
        decreases s@.len() - pos,
    {
        proof {
            lemma_xw_widget_advances(s@, pos as int, "screen"@);
        }
        let (w, p) = match parse_with_parent(s, pos, screen.as_slice()) {
            Ok(x) => x,
            Err(e) => {
                return Err(e);
            },
        };
        let ghost before = out@;
        out.push(w);
        proof {
            lemma_xw_widgets_v_push(before, w);
        }
        pos = p;
    }
    Ok(())
}

impl Widget {
    /// Parse a whole token stream as one top-level widget, written inside
    /// `screen` (`xw_root`). Input on which a body stalls is left out: there
    /// parsing never finishes (see `try_parse`).
    pub fn parse(s: &[Tok]) -> (r: Result<Widget, DsError>)
        requires
            !(xw_root(s@) is Stalled),
        ensures
            match (r, xw_root(s@)) {
                (Ok(w), XwParsed::Done(v, _)) => w@ == v,
                (Err(a), XwParsed::Failed(b)) => a == b,
                _ => false,
            },
    {
        match Widget::try_parse(s) {
            Ok(w) => Ok(w),
            Err(XwStop::Refused(e)) => Err(e),
            Err(XwStop::Stalled) => Err(DsError::Expected),
        }
    }

    /// Parse a whole token stream as one top-level widget (`xw_root`),
    /// telling a stalled body apart from a refusal.
    pub fn try_parse(s: &[Tok]) -> (r: Result<Widget, XwStop>)
        ensures
            match r {
                Ok(w) => xw_root(s@) matches XwParsed::Done(v, _) && w@ == v,
                Err(e) => xw_stop_agrees(e, xw_root(s@)),
            },
    {
        let screen = chars_of("screen");
        match parse_with_parent(s, 0, screen.as_slice()) {
            Ok((w, p)) => if p == s.len() {
                Ok(w)
            } else {
                Err(XwStop::Refused(DsError::Unexpected))
            },
            Err(e) => Err(e),
        }
    }
}

/// Append a widget's statements (`xw_code`).
fn emit_widget(w: &Widget, out: &mut Vec<Tok>)
    ensures
        toks_v(final(out)@) == toks_v(old(out)@) + xw_code(w@),
    decreases w,
{
    let ghost start = toks_v(out@);
    let ghost wv = w@;
    let mut args: Vec<Vec<Tok>> = Vec::new();
    args.push(str_tok(w.name.as_slice()));
    args.push(str_tok(w.parent.as_slice()));
    assert(exprs_v(args@) =~= seq![seq![str_lit(w.name@)], seq![str_lit(w.parent@)]]);
    push_print(out, "\"let {} = obj::new({})\"", args.as_slice());
    let ghost head = toks_v(out@);
    let ghost aparts = Seq::new(wv.attrs.len(), |i: int| xw_setter(wv.name, wv.attrs[i]));
    let mut i: usize = 0;
    while i < w.attrs.len()
        invariant
            i <= w.attrs@.len(),
            wv == w@,
            wv.attrs == xw_attrs_v(w.attrs@),
            aparts == Seq::new(wv.attrs.len(), |i: int| xw_setter(wv.name, wv.attrs[i])),
            toks_v(out@) == head + flat(aparts.take(i as int)),
        decreases w.attrs@.len() - i,
    {
        let a = &w.attrs[i];
        let mut args: Vec<Vec<Tok>> = Vec::new();
        args.push(str_tok(w.name.as_slice()));
        args.push(str_tok(a.name.as_slice()));
        args.push(crate::token::toks_clone(a.value.as_slice()));
        assert(exprs_v(args@) =~= seq![
            seq![str_lit(wv.name)],
            seq![str_lit(wv.attrs[i as int].name)],
            wv.attrs[i as int].value,
        ]);
        push_print(out, "\"{}.set_{}({:?})\"", args.as_slice());
        proof {
            assert(aparts.take(i + 1) =~= aparts.take(i as int).push(aparts[i as int]));
            lemma_flat_push(aparts.take(i as int), aparts[i as int]);
        }
        i = i + 1;
    }
    assert(aparts.take(wv.attrs.len() as int) =~= aparts);
    let ghost mid = toks_v(out@);
    let mut k: usize = 0;
    while k < w.children.len()
        invariant
            k <= w.children@.len(),
            wv == w@,
            wv.children == xw_widgets_v(w.children@),
            toks_v(out@) == mid + xw_codes(xw_widgets_v(w.children@.take(k as int))),
        decreases w.children@.len() - k,
    {
        assert(decreases_to!(w => w.children@[k as int]));
        emit_widget(&w.children[k], out);
        proof {
            assert(w.children@.take(k + 1) =~= w.children@.take(k as int).push(w.children@[k as int]));
            lemma_xw_widgets_v_push(w.children@.take(k as int), w.children@[k as int]);
            assert(xw_widgets_v(w.children@.take(k + 1)).drop_last() =~= xw_widgets_v(
                w.children@.take(k as int),
            ));
        }
        k = k + 1;
    }
    assert(w.children@.take(w.children@.len() as int) =~= w.children@);
    assert(toks_v(out@) =~= start + xw_code(wv));
}

impl Widget {
    /// The statements the widget generates: its creation under its parent,
    /// its setters, then its children's statements (`xw_code`).
    pub fn to_tokens(&self) -> (r: Vec<Tok>)
        ensures
            toks_v(r@) == xw_code(self@),
    {
        let mut out: Vec<Tok> = Vec::new();
        emit_widget(self, &mut out);
        assert(toks_v(out@) =~= xw_code(self@));
        out
    }
}

impl Attr {
    /// `println!("setAttribute({}, {})", "name", stringify!(value));` (`xw_attr_code`).
    pub fn to_tokens(&self) -> (r: Vec<Tok>)
        ensures
            toks_v(r@) == xw_attr_code(self@),
    {
        let mut call: Vec<Tok> = Vec::new();
        let t1 = Tok::Ident { text: chars_of("stringify"), lines: at_call_site() };
        let t2 = Tok::Punct { ch: '!', joint: false, lines: at_call_site() };
        let t3 = Tok::Group {
            delim: Delim::Paren,
            inner: crate::token::toks_clone(self.value.as_slice()),
            lines: at_call_site(),
            source: None,
        };
        call.push(t1);
        call.push(t2);
        call.push(t3);
        proof {
            lemma_toks_v(call@);
        }
        assert(toks_v(call@) =~= seq![
            TokV::Ident("stringify"@),
            TokV::Punct('!', false),
            TokV::Group(Delim::Paren, toks_v(self.value@)),
        ]);
        let mut args: Vec<Vec<Tok>> = Vec::new();
        args.push(str_tok(self.name.as_slice()));
        args.push(call);
        assert(exprs_v(args@) =~= seq![
            seq![str_lit(self.name@)],
            seq![
                TokV::Ident("stringify"@),
                TokV::Punct('!', false),
                TokV::Group(Delim::Paren, toks_v(self.value@)),
            ],
        ]);
        let mut out: Vec<Tok> = Vec::new();
        push_print(&mut out, "\"setAttribute({}, {})\"", args.as_slice());
        assert(toks_v(out@) =~= xw_attr_code(self@));
        out
    }
}

} // verus!
