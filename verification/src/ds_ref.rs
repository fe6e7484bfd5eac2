//! The `DsRef` derive: for a type `Name`, a shared, interior-mutable handle
//! `NameRef` (an `Rc<RefCell<Name>>` behind `Deref`/`DerefMut`), `Clone`
//! for it, and `Name::into_ref`. The expansion is spelled out token by
//! token over the token model.

use vstd::prelude::*;
use crate::token::{Delim, Lines, Tok, TokV, lemma_toks_v, tok_v, toks_v};
use crate::text::{chars_of, push_all};
use crate::syntax::tok_tree;

verus! {

broadcast use vstd::seq_lib::group_seq_properties;

/// An identifier token.
pub open spec fn id(s: Seq<char>) -> TokV {
    TokV::Ident(s)
}

/// A punctuation token followed by whitespace or a non-punctuation token.
pub open spec fn alone(c: char) -> TokV {
    TokV::Punct(c, false)
}

/// A punctuation token joined to the next one (`::`, `->`, `>>`).
pub open spec fn joint(c: char) -> TokV {
    TokV::Punct(c, true)
}

/// The handle type's name: `Name` without a raw-identifier prefix, then `Ref`.
pub open spec fn ref_name(name: Seq<char>) -> Seq<char> {
    if name.len() >= 2 && name[0] == 'r' && name[1] == '#' {
        name.skip(2) + "Ref"@
    } else {
        name + "Ref"@
    }
}

/// `core::cell::RefCell::new(self)`
pub open spec fn refcell_new_self() -> Seq<TokV> {
    seq![
        id("core"@), joint(':'), alone(':'), id("cell"@), joint(':'), alone(':'),
        id("RefCell"@), joint(':'), alone(':'), id("new"@),
        TokV::Group(Delim::Paren, seq![id("self"@)]),
    ]
}

/// `inner: std::rc::Rc::new(core::cell::RefCell::new(self)),`
pub open spec fn into_ref_field() -> Seq<TokV> {
    seq![
        id("inner"@), alone(':'), id("std"@), joint(':'), alone(':'), id("rc"@), joint(':'),
        alone(':'), id("Rc"@), joint(':'), alone(':'), id("new"@),
        TokV::Group(Delim::Paren, refcell_new_self()), alone(','),
    ]
}

/// `pub fn into_ref(self) -> NameRef { NameRef { ... } }`
pub open spec fn into_ref_fn(name: Seq<char>) -> Seq<TokV> {
    seq![
        id("pub"@), id("fn"@), id("into_ref"@), TokV::Group(Delim::Paren, seq![id("self"@)]),
        joint('-'), alone('>'), id(ref_name(name)),
        TokV::Group(
            Delim::Brace,
            seq![id(ref_name(name)), TokV::Group(Delim::Brace, into_ref_field())],
        ),
    ]
}

/// `impl Name { pub fn into_ref ... }`
pub open spec fn into_ref_impl(name: Seq<char>) -> Seq<TokV> {
    seq![id("impl"@), id(name), TokV::Group(Delim::Brace, into_ref_fn(name))]
}

/// `#[derive(Debug)]`
pub open spec fn derive_debug() -> Seq<TokV> {
    seq![
        alone('#'),
        TokV::Group(
            Delim::Bracket,
            seq![id("derive"@), TokV::Group(Delim::Paren, seq![id("Debug"@)])],
        ),
    ]
}

/// `inner: std::rc::Rc<core::cell::RefCell<Name>>,`
pub open spec fn handle_field(name: Seq<char>) -> Seq<TokV> {
    seq![
        id("inner"@), alone(':'), id("std"@), joint(':'), alone(':'), id("rc"@), joint(':'),
        alone(':'), id("Rc"@), alone('<'), id("core"@), joint(':'), alone(':'), id("cell"@),
        joint(':'), alone(':'), id("RefCell"@), alone('<'), id(name), joint('>'), alone('>'),
        alone(','),
    ]
}

/// `pub struct NameRef { inner: ... }`
pub open spec fn handle_struct(name: Seq<char>) -> Seq<TokV> {
    seq![
        id("pub"@), id("struct"@), id(ref_name(name)),
        TokV::Group(Delim::Brace, handle_field(name)),
    ]
}

/// `fn clone(&self) -> Self { NameRef { inner: self.inner.clone(), } }`
pub open spec fn clone_fn(name: Seq<char>) -> Seq<TokV> {
    seq![
        id("fn"@), id("clone"@), TokV::Group(Delim::Paren, seq![alone('&'), id("self"@)]),
        joint('-'), alone('>'), id("Self"@),
        TokV::Group(
            Delim::Brace,
            seq![
                id(ref_name(name)),
                TokV::Group(
                    Delim::Brace,
                    seq![
                        id("inner"@), alone(':'), id("self"@), alone('.'), id("inner"@),
                        alone('.'), id("clone"@), TokV::Group(Delim::Paren, Seq::empty()),
                        alone(','),
                    ],
                ),
            ],
        ),
    ]
}

/// `impl Clone for NameRef { fn clone ... }`
pub open spec fn clone_impl(name: Seq<char>) -> Seq<TokV> {
    seq![
        id("impl"@), id("Clone"@), id("for"@), id(ref_name(name)),
        TokV::Group(Delim::Brace, clone_fn(name)),
    ]
}

/// `type Target = std::rc::Rc<std::cell::RefCell<Name>>;`
pub open spec fn target_type(name: Seq<char>) -> Seq<TokV> {
    seq![
        id("type"@), id("Target"@), alone('='), id("std"@), joint(':'), alone(':'), id("rc"@),
        joint(':'), alone(':'), id("Rc"@), alone('<'), id("std"@), joint(':'), alone(':'),
        id("cell"@), joint(':'), alone(':'), id("RefCell"@), alone('<'), id(name), joint('>'),
        alone('>'), alone(';'),
    ]
}

/// `fn deref(&self) -> &Self::Target { &self.inner }`
pub open spec fn deref_fn() -> Seq<TokV> {
    seq![
        id("fn"@), id("deref"@), TokV::Group(Delim::Paren, seq![alone('&'), id("self"@)]),
        joint('-'), alone('>'), alone('&'), id("Self"@), joint(':'), alone(':'), id("Target"@),
        TokV::Group(Delim::Brace, seq![alone('&'), id("self"@), alone('.'), id("inner"@)]),
    ]
}

/// `impl core::ops::Deref for NameRef { type Target = ...; fn deref ... }`
pub open spec fn deref_impl(name: Seq<char>) -> Seq<TokV> {
    seq![
        id("impl"@), id("core"@), joint(':'), alone(':'), id("ops"@), joint(':'), alone(':'),
        id("Deref"@), id("for"@), id(ref_name(name)),
        TokV::Group(Delim::Brace, target_type(name) + deref_fn()),
    ]
}

/// `fn deref_mut(&mut self) -> &mut Self::Target { &mut self.inner }`
pub open spec fn deref_mut_fn() -> Seq<TokV> {
    seq![
        id("fn"@), id("deref_mut"@),
        TokV::Group(Delim::Paren, seq![alone('&'), id("mut"@), id("self"@)]), joint('-'),
        alone('>'), alone('&'), id("mut"@), id("Self"@), joint(':'), alone(':'), id("Target"@),
        TokV::Group(
            Delim::Brace,
            seq![alone('&'), id("mut"@), id("self"@), alone('.'), id("inner"@)],
        ),
    ]
}

/// `impl core::ops::DerefMut for NameRef { fn deref_mut ... }`
pub open spec fn deref_mut_impl(name: Seq<char>) -> Seq<TokV> {
    seq![
        id("impl"@), id("core"@), joint(':'), alone(':'), id("ops"@), joint(':'), alone(':'),
        id("DerefMut"@), id("for"@), id(ref_name(name)),
        TokV::Group(Delim::Brace, deref_mut_fn()),
    ]
}

/// The whole expansion of `#[derive(DsRef)]` on the type `name`.
pub open spec fn ds_ref_tokens(name: Seq<char>) -> Seq<TokV> {
    into_ref_impl(name) + derive_debug() + handle_struct(name) + clone_impl(name) + deref_impl(
        name,
    ) + deref_mut_impl(name)
}

/// The name of the type `syn` parses from `toks` as a derive input
/// (`syn::parse2::<syn::DeriveInput>`, its `ident` printed); `None` when
/// the tokens do not parse as one.
pub uninterp spec fn derive_name(toks: Seq<TokV>) -> Option<Seq<char>>;

/// `syn::parse2::<syn::DeriveInput>` on the `proc_macro2` stream of
/// `toks` (built with `tok_tree`), its `ident` printed (`derive_name`); all
/// on `proc_macro2`'s own implementation (`fallback::force` for the call).
#[verifier::external_body]
fn derive_ident(toks: &[Tok]) -> (r: Option<Vec<char>>)
    ensures
        match r {
            Some(v) => derive_name(toks_v(toks@)) == Some(v@),
            None => derive_name(toks_v(toks@)) is None,
        },
{
    proc_macro2::fallback::force();
    let ts = toks.iter().map(tok_tree).collect::<Option<proc_macro2::TokenStream>>();
    let input = match ts {
        Some(ts) => syn::parse2::<syn::DeriveInput>(ts).ok(),
        None => None,
    };
    let r = match input {
        Some(i) => Some(i.ident.to_string().chars().collect()),
        None => None,
    };
    proc_macro2::fallback::unforce();
    r
}

/// An identifier token for `s`.
fn word(s: &str) -> (r: Tok)
    ensures
        tok_v(r) == id(s@),
{
    Tok::Ident { text: chars_of(s), lines: Lines { start: 0, end: 0 } }
}

/// An identifier token for `s`.
fn word_of(s: &[char]) -> (r: Tok)
    ensures
        tok_v(r) == id(s@),
{
    let mut text: Vec<char> = Vec::new();
    push_all(&mut text, s);
    assert(text@ =~= s@);
    Tok::Ident { text: text, lines: Lines { start: 0, end: 0 } }
}

/// A punctuation token, joint to the next or not.
fn punct(c: char, j: bool) -> (r: Tok)
    ensures
        tok_v(r) == TokV::Punct(c, j),
{
    Tok::Punct { ch: c, joint: j, lines: Lines { start: 0, end: 0 } }
}

/// A group token around `inner`.
fn group(d: Delim, inner: Vec<Tok>) -> (r: Tok)
    ensures
        tok_v(r) == TokV::Group(d, toks_v(inner@)),
{
    Tok::Group { delim: d, inner: inner, lines: Lines { start: 0, end: 0 }, source: None }
}

/// The one-token list `[t]`.
fn one(t: Tok) -> (r: Vec<Tok>)
    ensures
        toks_v(r@) == seq![tok_v(t)],
{
    let v = vec![t];
    proof {
        lemma_toks_v(v@);
    }
    assert(toks_v(v@) =~= seq![tok_v(t)]);
    v
}

/// The two-token list `[a, b]`.
fn two(a: Tok, b: Tok) -> (r: Vec<Tok>)
    ensures
        toks_v(r@) == seq![tok_v(a), tok_v(b)],
{
    let v = vec![a, b];
    proof {
        lemma_toks_v(v@);
    }
    assert(toks_v(v@) =~= seq![tok_v(a), tok_v(b)]);
    v
}

/// The handle type's name (`ref_name`).
fn ref_name_of(name: &[char]) -> (r: Vec<char>)
    ensures
        r@ == ref_name(name@),
{
    let mut out: Vec<char> = Vec::new();
    if name.len() >= 2 && name[0] == 'r' && name[1] == '#' {
        let mut i: usize = 2;
        while i < name.len()
            invariant
                2 <= i <= name@.len(),
                out@ == name@.subrange(2, i as int),
            decreases name@.len() - i,
        {
            out.push(name[i]);
            i = i + 1;
            assert(out@ =~= name@.subrange(2, i as int));
        }
        assert(out@ =~= name@.skip(2));
    }
    else {
        push_all(&mut out, name);
    }
    let suffix = chars_of("Ref");
    push_all(&mut out, suffix.as_slice());
    out
}

fn refcell_new_self_toks() -> (r: Vec<Tok>)
    ensures
        toks_v(r@) == refcell_new_self(),
{
    let v = vec![
        word("core"), punct(':', true), punct(':', false), word("cell"), punct(':', true),
        punct(':', false), word("RefCell"), punct(':', true), punct(':', false), word("new"),
        group(Delim::Paren, one(word("self"))),
    ];
    proof {
        lemma_toks_v(v@);
    }
    assert(toks_v(v@) =~= refcell_new_self());
    v
}

fn into_ref_impl_toks(name: &[char], rn: &[char]) -> (r: Vec<Tok>)
    requires
        rn@ == ref_name(name@),
    ensures
        toks_v(r@) == into_ref_impl(name@),
{
    let field = vec![
        word("inner"), punct(':', false), word("std"), punct(':', true), punct(':', false),
        word("rc"), punct(':', true), punct(':', false), word("Rc"), punct(':', true),
        punct(':', false), word("new"), group(Delim::Paren, refcell_new_self_toks()),
        punct(',', false),
    ];
    proof {
        lemma_toks_v(field@);
    }
    assert(toks_v(field@) =~= into_ref_field());
    let body = vec![word_of(rn), group(Delim::Brace, field)];
    proof {
        lemma_toks_v(body@);
    }
    assert(toks_v(body@) =~= seq![id(ref_name(name@)), TokV::Group(Delim::Brace, into_ref_field())]);
    let f = vec![
        word("pub"), word("fn"), word("into_ref"), group(Delim::Paren, one(word("self"))),
        punct('-', true), punct('>', false), word_of(rn), group(Delim::Brace, body),
    ];
    proof {
        lemma_toks_v(f@);
    }
    assert(toks_v(f@) =~= into_ref_fn(name@));
    let v = vec![word("impl"), word_of(name), group(Delim::Brace, f)];
    proof {
        lemma_toks_v(v@);
    }
    assert(toks_v(v@) =~= into_ref_impl(name@));
    v
}

fn derive_debug_toks() -> (r: Vec<Tok>)
    ensures
        toks_v(r@) == derive_debug(),
{
    let inner = vec![word("derive"), group(Delim::Paren, one(word("Debug")))];
    proof {
        lemma_toks_v(inner@);
    }
    assert(toks_v(inner@) =~= seq![id("derive"@), TokV::Group(Delim::Paren, seq![id("Debug"@)])]);
    let v = vec![punct('#', false), group(Delim::Bracket, inner)];
    proof {
        lemma_toks_v(v@);
    }
    assert(toks_v(v@) =~= derive_debug());
    v
}

fn handle_struct_toks(name: &[char], rn: &[char]) -> (r: Vec<Tok>)
    requires
        rn@ == ref_name(name@),
    ensures
        toks_v(r@) == handle_struct(name@),
{
    let field = vec![
        word("inner"), punct(':', false), word("std"), punct(':', true), punct(':', false),
        word("rc"), punct(':', true), punct(':', false), word("Rc"), punct('<', false),
        word("core"), punct(':', true), punct(':', false), word("cell"), punct(':', true),
        punct(':', false), word("RefCell"), punct('<', false), word_of(name), punct('>', true),
        punct('>', false), punct(',', false),
    ];
    proof {
        lemma_toks_v(field@);
    }
    assert(toks_v(field@) =~= handle_field(name@));
    let v = vec![word("pub"), word("struct"), word_of(rn), group(Delim::Brace, field)];
    proof {
        lemma_toks_v(v@);
    }
    assert(toks_v(v@) =~= handle_struct(name@));
    v
}

fn clone_impl_toks(name: &[char], rn: &[char]) -> (r: Vec<Tok>)
    requires
        rn@ == ref_name(name@),
    ensures
        toks_v(r@) == clone_impl(name@),
{
    let empty: Vec<Tok> = Vec::new();
    let field = vec![
        word("inner"), punct(':', false), word("self"), punct('.', false), word("inner"),
        punct('.', false), word("clone"), group(Delim::Paren, empty), punct(',', false),
    ];
    proof {
        lemma_toks_v(field@);
    }
    let ghost fv = seq![
        id("inner"@), alone(':'), id("self"@), alone('.'), id("inner"@),
        alone('.'), id("clone"@), TokV::Group(Delim::Paren, Seq::empty()),
        alone(','),
    ];
    assert(toks_v(empty@) =~= Seq::<TokV>::empty());
    assert(toks_v(field@) =~= fv);
    let body = vec![word_of(rn), group(Delim::Brace, field)];
    proof {
        lemma_toks_v(body@);
    }
    assert(toks_v(body@) =~= seq![id(ref_name(name@)), TokV::Group(Delim::Brace, fv)]);
    let f = vec![
        word("fn"), word("clone"), group(Delim::Paren, two(punct('&', false), word("self"))),
        punct('-', true), punct('>', false), word("Self"), group(Delim::Brace, body),
    ];
    proof {
        lemma_toks_v(f@);
    }
    assert(toks_v(f@) =~= clone_fn(name@));
    let v = vec![word("impl"), word("Clone"), word("for"), word_of(rn), group(Delim::Brace, f)];
    proof {
        lemma_toks_v(v@);
    }
    assert(toks_v(v@) =~= clone_impl(name@));
    v
}

fn deref_impl_toks(name: &[char], rn: &[char]) -> (r: Vec<Tok>)
    requires
        rn@ == ref_name(name@),
    ensures
        toks_v(r@) == deref_impl(name@),
{
    let mut body = vec![
        word("type"), word("Target"), punct('=', false), word("std"), punct(':', true),
        punct(':', false), word("rc"), punct(':', true), punct(':', false), word("Rc"),
        punct('<', false), word("std"), punct(':', true), punct(':', false), word("cell"),
        punct(':', true), punct(':', false), word("RefCell"), punct('<', false), word_of(name),
        punct('>', true), punct('>', false), punct(';', false),
    ];
    proof {
        lemma_toks_v(body@);
    }
    assert(toks_v(body@) =~= target_type(name@));
    let inner = vec![punct('&', false), word("self"), punct('.', false), word("inner")];
    proof {
        lemma_toks_v(inner@);
    }
    assert(toks_v(inner@) =~= seq![alone('&'), id("self"@), alone('.'), id("inner"@)]);
    let f = vec![
        word("fn"), word("deref"), group(Delim::Paren, two(punct('&', false), word("self"))),
        punct('-', true), punct('>', false), punct('&', false), word("Self"), punct(':', true),
        punct(':', false), word("Target"), group(Delim::Brace, inner),
    ];
    proof {
        lemma_toks_v(f@);
    }
    assert(toks_v(f@) =~= deref_fn());
    crate::rune::append_toks(&mut body, f.as_slice());
    let v = vec![
        word("impl"), word("core"), punct(':', true), punct(':', false), word("ops"),
        punct(':', true), punct(':', false), word("Deref"), word("for"), word_of(rn),
        group(Delim::Brace, body),
    ];
    proof {
        lemma_toks_v(v@);
    }
    assert(toks_v(v@) =~= deref_impl(name@));
    v
}

fn deref_mut_impl_toks(name: &[char], rn: &[char]) -> (r: Vec<Tok>)
    requires
        rn@ == ref_name(name@),
    ensures
        toks_v(r@) == deref_mut_impl(name@),
{
    let inner = vec![punct('&', false), word("mut"), word("self"), punct('.', false), word("inner")];
    proof {
        lemma_toks_v(inner@);
    }
    assert(toks_v(inner@) =~= seq![alone('&'), id("mut"@), id("self"@), alone('.'), id("inner"@)]);
    let params = vec![punct('&', false), word("mut"), word("self")];
    proof {
        lemma_toks_v(params@);
    }
    assert(toks_v(params@) =~= seq![alone('&'), id("mut"@), id("self"@)]);
    let f = vec![
        word("fn"), word("deref_mut"), group(Delim::Paren, params), punct('-', true),
        punct('>', false), punct('&', false), word("mut"), word("Self"), punct(':', true),
        punct(':', false), word("Target"), group(Delim::Brace, inner),
    ];
    proof {
        lemma_toks_v(f@);
    }
    assert(toks_v(f@) =~= deref_mut_fn());
    let v = vec![
        word("impl"), word("core"), punct(':', true), punct(':', false), word("ops"),
        punct(':', true), punct(':', false), word("DerefMut"), word("for"), word_of(rn),
        group(Delim::Brace, f),
    ];
    proof {
        lemma_toks_v(v@);
    }
    assert(toks_v(v@) =~= deref_mut_impl(name@));
    v
}

/// The expansion of `#[derive(DsRef)]` on the type named `name`.
pub fn ds_ref_expansion(name: &[char]) -> (r: Vec<Tok>)
    ensures
        toks_v(r@) == ds_ref_tokens(name@),
{
    let rn = ref_name_of(name);
    let mut out = into_ref_impl_toks(name, rn.as_slice());
    crate::rune::append_toks(&mut out, derive_debug_toks().as_slice());
    crate::rune::append_toks(&mut out, handle_struct_toks(name, rn.as_slice()).as_slice());
    crate::rune::append_toks(&mut out, clone_impl_toks(name, rn.as_slice()).as_slice());
    crate::rune::append_toks(&mut out, deref_impl_toks(name, rn.as_slice()).as_slice());
    crate::rune::append_toks(&mut out, deref_mut_impl_toks(name, rn.as_slice()).as_slice());
    out
}

/// `#[derive(DsRef)]` on the item `input`: the expansion for the type
/// `syn` parses from it; `None` when `input` is not a derive input.
pub fn ds_ref_derive_macro(input: &[Tok]) -> (r: Option<Vec<Tok>>)
    ensures
        match derive_name(toks_v(input@)) {
            Some(n) => r matches Some(v) && toks_v(v@) == ds_ref_tokens(n),
            None => r is None,
        },
{
    match derive_ident(input) {
        Some(name) => Some(ds_ref_expansion(name.as_slice())),
        None => None,
    }
}

} // verus!
