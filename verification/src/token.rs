//! The token model the DSL is written in: Rust token trees as plain values.
//! Each token carries the source lines it spans; a group also carries its
//! source text when the producer of the tokens knew it.

use vstd::prelude::*;
use crate::text::eq_lit;

verus! {

broadcast use vstd::seq_lib::group_seq_properties;

/// Delimiter of a token group.
#[derive(PartialEq, Eq, Structural, Clone, Copy, Debug)]
pub enum Delim {
    Paren,
    Brace,
    Bracket,
    Invisible,
}

/// First and last source line of a token (1-based; 0 when unknown).
#[derive(PartialEq, Eq, Structural, Clone, Copy, Debug)]
pub struct Lines {
    pub start: usize,
    pub end: usize,
}

/// One token tree.
#[derive(Debug)]
pub enum Tok {
    Ident { text: Vec<char>, lines: Lines },
    Punct { ch: char, joint: bool, lines: Lines },
    Lit { text: Vec<char>, lines: Lines },
    Group { delim: Delim, inner: Vec<Tok>, lines: Lines, source: Option<Vec<char>> },
}

/// The value of a token tree, without its source positions.
pub enum TokV {
    Ident(Seq<char>),
    Punct(char, bool),
    Lit(Seq<char>),
    Group(Delim, Seq<TokV>),
}

/// The whole of a token tree as a plain value: its value, the source lines
/// it spans, and a group's source text.
pub enum TokF {
    Ident(Seq<char>, Lines),
    Punct(char, bool, Lines),
    Lit(Seq<char>, Lines),
    Group(Delim, Seq<TokF>, Lines, Option<Seq<char>>),
}

/// The view of an optional text.
pub open spec fn opt_text(o: Option<Vec<char>>) -> Option<Seq<char>> {
    match o {
        Some(v) => Some(v@),
        None => None,
    }
}

/// The whole of a token tree (`TokF`).
pub open spec fn tok_f(t: Tok) -> TokF
    decreases t,
{
    match t {
        Tok::Ident { text, lines } => TokF::Ident(text@, lines),
        Tok::Punct { ch, joint, lines } => TokF::Punct(ch, joint, lines),
        Tok::Lit { text, lines } => TokF::Lit(text@, lines),
        Tok::Group { delim, inner, lines, source } => TokF::Group(
            delim,
            toks_f(inner@),
            lines,
            opt_text(source),
        ),
    }
}

/// The whole of each token tree.
pub open spec fn toks_f(s: Seq<Tok>) -> Seq<TokF>
    decreases s,
{
    if s.len() == 0 {
        Seq::empty()
    } else {
        toks_f(s.drop_last()).push(tok_f(s.last()))
    }
}

pub open spec fn tok_v(t: Tok) -> TokV
    decreases t,
{
    match t {
        Tok::Ident { text, .. } => TokV::Ident(text@),
        Tok::Punct { ch, joint, .. } => TokV::Punct(ch, joint),
        Tok::Lit { text, .. } => TokV::Lit(text@),
        Tok::Group { delim, inner, .. } => TokV::Group(delim, toks_v(inner@)),
    }
}

pub open spec fn toks_v(s: Seq<Tok>) -> Seq<TokV>
    decreases s,
{
    if s.len() == 0 {
        Seq::empty()
    } else {
        toks_v(s.drop_last()).push(tok_v(s.last()))
    }
}

pub proof fn lemma_toks_v(s: Seq<Tok>)
    ensures
        toks_v(s).len() == s.len(),
        forall|i: int| 0 <= i < s.len() ==> #[trigger] toks_v(s)[i] == tok_v(s[i]),
    decreases s.len(),
{
    if s.len() > 0 {
        lemma_toks_v(s.drop_last());
    }
}

pub proof fn lemma_toks_v_ext(a: Seq<Tok>, b: Seq<Tok>)
    requires
        a.len() == b.len(),
        forall|i: int| 0 <= i < a.len() ==> tok_v(#[trigger] a[i]) == tok_v(b[i]),
    ensures
        toks_v(a) == toks_v(b),
{
    lemma_toks_v(a);
    lemma_toks_v(b);
    assert(toks_v(a) =~= toks_v(b));
}

pub proof fn lemma_toks_v_push(s: Seq<Tok>, t: Tok)
    ensures
        toks_v(s.push(t)) == toks_v(s).push(tok_v(t)),
{
    assert(s.push(t).drop_last() =~= s);
}

/// A copy of a token tree.
pub fn tok_clone(t: &Tok) -> (r: Tok)
    ensures
        tok_v(r) == tok_v(*t),
    decreases *t,
{
    match t {
        Tok::Ident { text, lines } => Tok::Ident { text: text.clone(), lines: *lines },
        Tok::Punct { ch, joint, lines } => Tok::Punct { ch: *ch, joint: *joint, lines: *lines },
        Tok::Lit { text, lines } => Tok::Lit { text: text.clone(), lines: *lines },
        Tok::Group { delim, inner, lines, source } => {
            let i = toks_clone(inner.as_slice());
            let src = match source {
                Some(v) => Some(v.clone()),
                None => None,
            };
            Tok::Group { delim: *delim, inner: i, lines: *lines, source: src }
        },
    }
}

/// A copy of a slice of token trees.
pub fn toks_clone(s: &[Tok]) -> (r: Vec<Tok>)
    ensures
        toks_v(r@) == toks_v(s@),
        r@.len() == s@.len(),
    decreases s@,
{
    let mut out: Vec<Tok> = Vec::new();
    let mut i: usize = 0;
    while i < s.len()
        invariant
            i <= s@.len(),
            out@.len() == i,
            forall|j: int| 0 <= j < i ==> tok_v(#[trigger] out@[j]) == tok_v(s@[j]),
        decreases s@.len() - i,
    {
        assert(decreases_to!(s@ => s@[i as int]));
        let t = tok_clone(&s[i]);
        out.push(t);
        i = i + 1;
    }
    proof {
        lemma_toks_v_ext(out@, s@);
    }
    out
}

/// A copy of the tokens `s[from..to]`.
pub fn toks_range(s: &[Tok], from: usize, to: usize) -> (r: Vec<Tok>)
    requires
        from <= to <= s@.len(),
    ensures
        toks_v(r@) == toks_v(s@.subrange(from as int, to as int)),
{
    let mut out: Vec<Tok> = Vec::new();
    let mut i: usize = from;
    while i < to
        invariant
            from <= i <= to,
            to <= s@.len(),
            out@.len() == i - from,
            forall|j: int| 0 <= j < i - from ==> tok_v(#[trigger] out@[j]) == tok_v(s@[from + j]),
        decreases to - i,
    {
        let t = tok_clone(&s[i]);
        out.push(t);
        i = i + 1;
    }
    proof {
        lemma_toks_v_ext(out@, s@.subrange(from as int, to as int));
    }
    out
}

/// The source lines of a token.
pub open spec fn lines_of(t: Tok) -> Lines {
    match t {
        Tok::Ident { lines, .. } => lines,
        Tok::Punct { lines, .. } => lines,
        Tok::Lit { lines, .. } => lines,
        Tok::Group { lines, .. } => lines,
    }
}

pub fn tok_lines(t: &Tok) -> (r: Lines)
    ensures
        r == lines_of(*t),
{
    match t {
        Tok::Ident { lines, .. } => *lines,
        Tok::Punct { lines, .. } => *lines,
        Tok::Lit { lines, .. } => *lines,
        Tok::Group { lines, .. } => *lines,
    }
}

/// Words that `syn::Ident` refuses as identifiers: `_` and Rust's keywords.
pub open spec fn is_reserved(s: Seq<char>) -> bool {
    ||| s == "_"@ || s == "abstract"@ || s == "as"@ || s == "async"@ || s == "await"@
    ||| s == "become"@ || s == "box"@ || s == "break"@ || s == "const"@ || s == "continue"@
    ||| s == "crate"@ || s == "do"@ || s == "dyn"@ || s == "else"@ || s == "enum"@
    ||| s == "extern"@ || s == "false"@ || s == "final"@ || s == "fn"@ || s == "for"@
    ||| s == "if"@ || s == "impl"@ || s == "in"@ || s == "let"@ || s == "loop"@
    ||| s == "macro"@ || s == "match"@ || s == "mod"@ || s == "move"@ || s == "mut"@
    ||| s == "override"@ || s == "priv"@ || s == "pub"@ || s == "ref"@ || s == "return"@
    ||| s == "Self"@ || s == "self"@ || s == "static"@ || s == "struct"@ || s == "super"@
    ||| s == "trait"@ || s == "true"@ || s == "try"@ || s == "type"@ || s == "typeof"@
    ||| s == "unsafe"@ || s == "unsized"@ || s == "use"@ || s == "virtual"@ || s == "where"@
    ||| s == "while"@ || s == "yield"@
}

/// Is `s` a reserved word?
pub fn reserved(s: &[char]) -> (r: bool)
    ensures
        r == is_reserved(s@),
{
    eq_lit(s, "_") || eq_lit(s, "abstract") || eq_lit(s, "as") || eq_lit(s, "async") || eq_lit(
        s,
        "await",
    ) || eq_lit(s, "become") || eq_lit(s, "box") || eq_lit(s, "break") || eq_lit(s, "const")
        || eq_lit(s, "continue") || eq_lit(s, "crate") || eq_lit(s, "do") || eq_lit(s, "dyn")
        || eq_lit(s, "else") || eq_lit(s, "enum") || eq_lit(s, "extern") || eq_lit(s, "false")
        || eq_lit(s, "final") || eq_lit(s, "fn") || eq_lit(s, "for") || eq_lit(s, "if")
        || eq_lit(s, "impl") || eq_lit(s, "in") || eq_lit(s, "let") || eq_lit(s, "loop")
        || eq_lit(s, "macro") || eq_lit(s, "match") || eq_lit(s, "mod") || eq_lit(s, "move")
        || eq_lit(s, "mut") || eq_lit(s, "override") || eq_lit(s, "priv") || eq_lit(s, "pub")
        || eq_lit(s, "ref") || eq_lit(s, "return") || eq_lit(s, "Self") || eq_lit(s, "self")
        || eq_lit(s, "static") || eq_lit(s, "struct") || eq_lit(s, "super") || eq_lit(
        s,
        "trait",
    ) || eq_lit(s, "true") || eq_lit(s, "try") || eq_lit(s, "type") || eq_lit(s, "typeof")
        || eq_lit(s, "unsafe") || eq_lit(s, "unsized") || eq_lit(s, "use") || eq_lit(
        s,
        "virtual",
    ) || eq_lit(s, "where") || eq_lit(s, "while") || eq_lit(s, "yield")
}

/// The DSL's own keywords: `walk`, `with`, `on`, `elif`, `by`.
pub open spec fn is_dsl_keyword(s: Seq<char>) -> bool {
    s == "walk"@ || s == "with"@ || s == "on"@ || s == "elif"@ || s == "by"@
}

/// Is `s` one of the DSL's own keywords?
pub fn dsl_keyword(s: &[char]) -> (r: bool)
    ensures
        r == is_dsl_keyword(s@),
{
    eq_lit(s, "walk") || eq_lit(s, "with") || eq_lit(s, "on") || eq_lit(s, "elif") || eq_lit(
        s,
        "by",
    )
}

/// `s[pos]` is the identifier `word` (a keyword peek).
pub open spec fn at_word(s: Seq<Tok>, pos: int, word: Seq<char>) -> bool {
    &&& 0 <= pos < s.len()
    &&& s[pos] matches Tok::Ident { text, .. } && text@ == word
}

/// `s[pos]` is an identifier that `syn::Ident` accepts.
pub open spec fn at_ident(s: Seq<Tok>, pos: int) -> bool {
    &&& 0 <= pos < s.len()
    &&& s[pos] matches Tok::Ident { text, .. } && !is_reserved(text@)
}

/// `s[pos]` is the punctuation character `c` (a single-character peek).
pub open spec fn at_punct(s: Seq<Tok>, pos: int, c: char) -> bool {
    &&& 0 <= pos < s.len()
    &&& s[pos] matches Tok::Punct { ch, .. } && ch == c
}

/// `s[pos]` is a group delimited by `d`.
pub open spec fn at_group(s: Seq<Tok>, pos: int, d: Delim) -> bool {
    &&& 0 <= pos < s.len()
    &&& s[pos] matches Tok::Group { delim, .. } && delim == d
}

/// `s[pos..]` starts with the two-character punctuation `a b` written joint.
pub open spec fn at_punct2(s: Seq<Tok>, pos: int, a: char, b: char) -> bool {
    &&& 0 <= pos && pos + 1 < s.len()
    &&& s[pos] matches Tok::Punct { ch, joint, .. } && ch == a && joint
    &&& s[pos + 1] matches Tok::Punct { ch, .. } && ch == b
}

pub fn is_word(s: &[Tok], pos: usize, word: &str) -> (r: bool)
    ensures
        s@.len() <= usize::MAX,
        r == at_word(s@, pos as int, word@),
{
    if pos < s.len() {
        match &s[pos] {
            Tok::Ident { text, .. } => eq_lit(text.as_slice(), word),
            _ => false,
        }
    } else {
        false
    }
}

pub fn is_ident(s: &[Tok], pos: usize) -> (r: bool)
    ensures
        s@.len() <= usize::MAX,
        r == at_ident(s@, pos as int),
{
    if pos < s.len() {
        match &s[pos] {
            Tok::Ident { text, .. } => !reserved(text.as_slice()),
            _ => false,
        }
    } else {
        false
    }
}

pub fn is_punct(s: &[Tok], pos: usize, c: char) -> (r: bool)
    ensures
        s@.len() <= usize::MAX,
        r == at_punct(s@, pos as int, c),
{
    if pos < s.len() {
        match &s[pos] {
            Tok::Punct { ch, .. } => *ch == c,
            _ => false,
        }
    } else {
        false
    }
}

pub fn is_group(s: &[Tok], pos: usize, d: Delim) -> (r: bool)
    ensures
        s@.len() <= usize::MAX,
        r == at_group(s@, pos as int, d),
{
    if pos < s.len() {
        match &s[pos] {
            Tok::Group { delim, .. } => *delim == d,
            _ => false,
        }
    } else {
        false
    }
}

pub fn is_punct2(s: &[Tok], pos: usize, a: char, b: char) -> (r: bool)
    ensures
        s@.len() <= usize::MAX,
        r == at_punct2(s@, pos as int, a, b),
{
    if pos < s.len() && pos + 1 < s.len() {
        let first = match &s[pos] {
            Tok::Punct { ch, joint, .. } => *ch == a && *joint,
            _ => false,
        };
        first && is_punct(s, pos + 1, b)
    } else {
        false
    }
}

/// The text of the identifier at `s[pos]`.
pub fn ident_text(s: &[Tok], pos: usize) -> (r: Vec<char>)
    requires
        0 <= pos < s@.len(),
        s@[pos as int] is Ident,
    ensures
        s@[pos as int] matches Tok::Ident { text, .. } && r@ == text@,
{
    match &s[pos] {
        Tok::Ident { text, .. } => text.clone(),
        _ => Vec::new(),
    }
}

} // verus!
