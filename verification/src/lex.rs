//! From text, or from a `proc_macro2` token stream, to the token model:
//! `proc_macro2` lexes; each of its token trees is converted one for one.

use vstd::prelude::*;
use crate::token::{Delim, Lines, Tok, TokF, tok_v, toks_f, toks_v};
use crate::syntax::{all_puncts_ok, is_punct_char, puncts_ok};

verus! {

#[verifier::external_type_specification]
#[verifier::external_body]
pub struct ExDelimiter(proc_macro2::Delimiter);

/// One `proc_macro2` token tree, its kind told apart, without its position.
pub enum Part {
    Ident(Vec<char>),
    Punct(char, bool),
    Lit(Vec<char>),
    Group(proc_macro2::Delimiter, proc_macro2::TokenStream),
}

/// The kind and content of a token tree: an identifier's or literal's
/// printed text, a punctuation character and whether it is joint, a group's
/// delimiter and inner stream. A `Punct` holds only a character that
/// `Punct::new` accepts (it panics on any other).
#[verifier::external_body]
fn tree_part(tt: &proc_macro2::TokenTree) -> (r: Part)
    ensures
        r matches Part::Punct(c, _) ==> is_punct_char(c),
{
    match tt {
        proc_macro2::TokenTree::Ident(i) => Part::Ident(i.to_string().chars().collect()),
        proc_macro2::TokenTree::Punct(p) => Part::Punct(
            p.as_char(),
            matches!(p.spacing(), proc_macro2::Spacing::Joint),
        ),
        proc_macro2::TokenTree::Literal(l) => Part::Lit(l.to_string().chars().collect()),
        proc_macro2::TokenTree::Group(g) => Part::Group(g.delimiter(), g.stream()),
    }
}

/// The library's name for a `proc_macro2` delimiter.
#[verifier::external_body]
fn delim_of(d: proc_macro2::Delimiter) -> Delim {
    match d {
        proc_macro2::Delimiter::Parenthesis => Delim::Paren,
        proc_macro2::Delimiter::Brace => Delim::Brace,
        proc_macro2::Delimiter::Bracket => Delim::Bracket,
        proc_macro2::Delimiter::None => Delim::Invisible,
    }
}

/// First and last source line of a token tree (`Span::start`, `Span::end`).
#[verifier::external_body]
fn tree_lines(tt: &proc_macro2::TokenTree) -> Lines {
    Lines { start: tt.span().start().line, end: tt.span().end().line }
}

/// The source text a token tree was lexed from (`Span::source_text`), when known.
#[verifier::external_body]
fn tree_source(tt: &proc_macro2::TokenTree) -> Option<Vec<char>> {
    match tt.span().source_text() {
        Some(t) => Some(t.chars().collect()),
        None => None,
    }
}

/// The token model of one `proc_macro2` token tree: its kind and content,
/// its source lines, and for a group its inner trees and source text. Its
/// punctuation characters are all ones `proc_macro2` accepts.
pub fn tok_of_tree(tt: proc_macro2::TokenTree) -> (r: Tok)
    ensures
        puncts_ok(tok_v(r)),
{
    let lines = tree_lines(&tt);
    match tree_part(&tt) {
        Part::Ident(t) => Tok::Ident { text: t, lines: lines },
        Part::Punct(c, j) => Tok::Punct { ch: c, joint: j, lines: lines },
        Part::Lit(t) => Tok::Lit { text: t, lines: lines },
        Part::Group(d, inner) => Tok::Group {
            delim: delim_of(d),
            inner: stream_toks(inner),
            lines: lines,
            source: tree_source(&tt),
        },
    }
}

/// The token model of a `proc_macro2` stream: its trees in order, each
/// converted by `tok_of_tree` (`IntoIterator` of `TokenStream`).
#[verifier::external_body]
pub(crate) fn stream_toks(ts: proc_macro2::TokenStream) -> (r: Vec<Tok>)
    ensures
        all_puncts_ok(toks_v(r@)),
{
    ts.into_iter().map(tok_of_tree).collect()
}

/// The token trees `proc_macro2`'s own lexer (its fallback implementation
/// of `str::parse::<TokenStream>`, with span locations) lexes from `text`,
/// each taken whole as a plain value: its value, the lines its span starts
/// and ends on, and a group's source text (`Span::source_text`); `None`
/// when the text does not lex.
pub uninterp spec fn lexed(text: Seq<char>) -> Option<Seq<TokF>>;

/// `str::parse::<proc_macro2::TokenStream>`, its trees converted by
/// `tok_of_tree`: the token trees are `lexed`. Inside a procedural macro
/// `proc_macro2` would hand lexing to the compiler (which, for one, spells
/// doc comments differently); `proc_macro2::fallback::force` keeps the call
/// on `proc_macro2`'s own lexer, and `fallback::unforce` restores detection.
#[verifier::external_body]
fn lex_text(text: &str) -> (r: Option<Vec<Tok>>)
    ensures
        r matches Some(v) ==> lexed(text@) == Some(toks_f(v@)),
        r is None ==> lexed(text@) is None,
{
    proc_macro2::fallback::force();
    let r = match text.parse::<proc_macro2::TokenStream>() {
        Ok(ts) => Some(ts.into_iter().map(tok_of_tree).collect()),
        Err(_) => None,
    };
    proc_macro2::fallback::unforce();
    r
}

/// The token model of a `proc_macro2` stream (a `ui!` body handed over by
/// the compiler). Its punctuation characters are all ones `proc_macro2`
/// accepts.
pub fn tokens_of(ts: proc_macro2::TokenStream) -> (r: Vec<Tok>)
    ensures
        all_puncts_ok(toks_v(r@)),
{
    stream_toks(ts)
}

/// Lex `text` into the token model; `None` when it does not lex.
pub fn lex(text: &str) -> (r: Option<Vec<Tok>>)
    ensures
        r matches Some(v) ==> lexed(text@) == Some(toks_f(v@)),
        r is None ==> lexed(text@) is None,
{
    lex_text(text)
}

} // verus!
