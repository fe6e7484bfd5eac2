//! Rust syntax as the outside crates see it. The DSL embeds Rust
//! expressions, patterns and blocks; where one ends, and whether it is well
//! formed, is decided by `syn`. Pretty-printing goes through `prettyplease`.
//! Every such decision reaches the library as a named result over the token
//! model: the rest of the library is verified against those names. Each
//! call that decides runs on `proc_macro2`'s own implementation
//! (`proc_macro2::fallback::force` for the length of the call), so that
//! inside a procedural macro as outside one its result depends on the
//! tokens alone.

use vstd::prelude::*;
use crate::token::{Delim, Tok, TokV, tok_v, toks_v};
use syn::parse::Parser;

verus! {

#[verifier::external_type_specification]
#[verifier::external_body]
pub struct ExTokenStream(proc_macro2::TokenStream);

#[verifier::external_type_specification]
#[verifier::external_body]
pub struct ExParseBuffer<'a>(syn::parse::ParseBuffer<'a>);

#[verifier::external_type_specification]
#[verifier::external_body]
pub struct ExSynError(syn::Error);

#[verifier::external_type_specification]
#[verifier::external_body]
pub struct ExStmt(syn::Stmt);

/// The characters `proc_macro2::Punct::new` accepts.
pub open spec fn is_punct_char(c: char) -> bool {
    c == '!' || c == '#' || c == '$' || c == '%' || c == '&' || c == '\'' || c == '*' || c == '+'
        || c == ',' || c == '-' || c == '.' || c == '/' || c == ':' || c == ';' || c == '<' || c
        == '=' || c == '>' || c == '?' || c == '@' || c == '^' || c == '|' || c == '~'
}

pub fn punct_char(c: char) -> (r: bool)
    ensures
        r == is_punct_char(c),
{
    c == '!' || c == '#' || c == '$' || c == '%' || c == '&' || c == '\'' || c == '*' || c == '+'
        || c == ',' || c == '-' || c == '.' || c == '/' || c == ':' || c == ';' || c == '<' || c
        == '=' || c == '>' || c == '?' || c == '@' || c == '^' || c == '|' || c == '~'
}

#[verifier::external_type_specification]
#[verifier::external_body]
pub struct ExTokenTree(proc_macro2::TokenTree);

/// Are all punctuation characters in the token, at any depth, ones
/// `proc_macro2` accepts (`is_punct_char`)?
pub open spec fn puncts_ok(t: TokV) -> bool
    decreases t,
{
    match t {
        TokV::Punct(c, _) => is_punct_char(c),
        TokV::Group(_, inner) => all_puncts_ok(inner),
        _ => true,
    }
}

/// `puncts_ok` of every token.
pub open spec fn all_puncts_ok(s: Seq<TokV>) -> bool
    decreases s,
{
    if s.len() == 0 {
        true
    } else {
        all_puncts_ok(s.drop_last()) && puncts_ok(s.last())
    }
}

/// Does `proc_macro2`'s own lexer (its fallback implementation of
/// `str::parse::<TokenStream>`) lex `text` to at least one token tree?
pub uninterp spec fn lexes_to_tree(text: Seq<char>) -> bool;

/// Does the token have a `proc_macro2` tree: an identifier's or literal's
/// text lexes, a punctuation character is one `proc_macro2` accepts, and a
/// group's inner tokens all have trees?
pub open spec fn has_tree(t: TokV) -> bool
    decreases t,
{
    match t {
        TokV::Ident(x) => lexes_to_tree(x),
        TokV::Lit(x) => lexes_to_tree(x),
        TokV::Punct(c, _) => is_punct_char(c),
        TokV::Group(_, inner) => all_have_trees(inner),
    }
}

/// Do all the tokens have `proc_macro2` trees?
pub open spec fn all_have_trees(s: Seq<TokV>) -> bool
    decreases s,
{
    if s.len() == 0 {
        true
    } else {
        all_have_trees(s.drop_last()) && has_tree(s.last())
    }
}

/// The first token tree that `text` lexes to (`str::parse::<TokenStream>`).
/// Outside a procedural macro only `proc_macro2`'s own lexer runs. Inside
/// one, `proc_macro2` first checks the text with its own lexer and then hands
/// it to the compiler's, which may still refuse it; the tree must be the
/// compiler's there, for it goes into the macro's output. So a tree comes
/// back only when `proc_macro2`'s own lexer finds one (`lexes_to_tree`), and
/// nothing is promised of when the compiler refuses.
#[verifier::external_body]
fn lexed_tree(text: &[char]) -> (r: Option<proc_macro2::TokenTree>)
    ensures
        r is Some ==> lexes_to_tree(text@),
{
    let s: String = text.iter().collect();
    s.parse::<proc_macro2::TokenStream>().ok()?.into_iter().next()
}

/// `proc_macro2::Punct::new(ch, spacing)` as a token tree; `Punct::new`
/// panics on any other character than the ones `is_punct_char` admits.
#[verifier::external_body]
fn punct_tree(ch: char, joint: bool) -> proc_macro2::TokenTree
    requires
        is_punct_char(ch),
{
    let spacing = if joint {
        proc_macro2::Spacing::Joint
    } else {
        proc_macro2::Spacing::Alone
    };
    proc_macro2::TokenTree::Punct(proc_macro2::Punct::new(ch, spacing))
}

/// `proc_macro2::Group::new(delim, stream)` as a token tree, the stream
/// collected from `tok_tree` of each inner token; `None` when one of them
/// has no tree.
#[verifier::external_body]
fn group_tree(delim: Delim, inner: &[Tok]) -> (r: Option<proc_macro2::TokenTree>)
    ensures
        r is Some ==> all_have_trees(toks_v(inner@)),
{
    let d = match delim {
        Delim::Paren => proc_macro2::Delimiter::Parenthesis,
        Delim::Brace => proc_macro2::Delimiter::Brace,
        Delim::Bracket => proc_macro2::Delimiter::Bracket,
        Delim::Invisible => proc_macro2::Delimiter::None,
    };
    let stream = inner.iter().map(tok_tree).collect::<Option<proc_macro2::TokenStream>>()?;
    Some(proc_macro2::TokenTree::Group(proc_macro2::Group::new(d, stream)))
}

/// The `proc_macro2` token tree of `t`; `None` when an identifier or
/// literal text does not lex or a punctuation character is not one
/// `proc_macro2` accepts. Inside a procedural macro the compiler's lexer may
/// refuse a text that `proc_macro2`'s own lexer accepts, so a tree is
/// promised to come back only on what both accept: when one comes back, the
/// token has a tree in `proc_macro2`'s own sense (`has_tree`).
pub fn tok_tree(t: &Tok) -> (r: Option<proc_macro2::TokenTree>)
    ensures
        r is Some ==> has_tree(tok_v(*t)),
{
    match t {
        Tok::Ident { text, .. } => lexed_tree(text.as_slice()),
        Tok::Lit { text, .. } => lexed_tree(text.as_slice()),
        Tok::Punct { ch, joint, .. } => {
            if punct_char(*ch) {
                Some(punct_tree(*ch, *joint))
            } else {
                None
            }
        },
        Tok::Group { delim, inner, .. } => group_tree(*delim, inner.as_slice()),
    }
}

/// Parses one expression from `input` with `syn` (`Expr::parse`, struct
/// literals allowed) and drops it.
#[verifier::external_body]
fn parse_expr(input: &syn::parse::ParseBuffer) -> Result<(), syn::Error> {
    input.parse::<syn::Expr>().map(|_| ())
}

/// Parses one expression from `input` with `syn`
/// (`Expr::parse_without_eager_brace`: no struct literal) and drops it.
#[verifier::external_body]
fn parse_expr_no_struct(input: &syn::parse::ParseBuffer) -> Result<(), syn::Error> {
    syn::Expr::parse_without_eager_brace(input).map(|_| ())
}

/// The token trees left in `input` (`ParseBuffer::cursor`,
/// `Cursor::token_stream`), in order.
#[verifier::external_body]
fn rest_trees(input: &syn::parse::ParseBuffer) -> Vec<proc_macro2::TokenTree> {
    input.cursor().token_stream().into_iter().collect()
}

/// Consumes what is left of `input` (`input.parse::<TokenStream>()`).
#[verifier::external_body]
fn skip_rest(input: &syn::parse::ParseBuffer) -> Result<(), syn::Error> {
    input.parse::<proc_macro2::TokenStream>().map(|_| ())
}

/// Parse one expression, then report how many token trees follow it.
pub(crate) fn expr_then_rest(input: &syn::parse::ParseBuffer, allow_struct: bool) -> Result<
    usize,
    syn::Error,
> {
    if allow_struct {
        parse_expr(input)?;
    } else {
        parse_expr_no_struct(input)?;
    }
    let n = rest_trees(input).len();
    skip_rest(input)?;
    Ok(n)
}

/// How many token trees of `toks` are left after `syn` parses one Rust
/// expression at their start (struct literals allowed or not); `None` when
/// no expression parses there.
pub uninterp spec fn rust_expr_rest(toks: Seq<TokV>, allow_struct: bool) -> Option<usize>;

/// Does `syn` parse all of `toks` as a pattern (`Pat::parse_multi_with_leading_vert`)?
pub uninterp spec fn rust_pat_ok(toks: Seq<TokV>) -> bool;

/// The kind of one statement of a block, as `syn` parses it (`syn::Stmt`).
pub enum StmtShape {
    /// `let` (`Stmt::Local`).
    Local,
    /// An item (`Stmt::Item`).
    Item,
    /// An expression, and whether a semicolon follows it (`Stmt::Expr`).
    Expr(bool),
    /// A macro invocation in statement position (`Stmt::Macro`).
    Macro,
}

/// How `syn` parses all of `toks` as the statements of a block
/// (`Block::parse_within`): `None` when they do not parse; otherwise the
/// kind of each statement, in order.
pub uninterp spec fn rust_block(toks: Seq<TokV>) -> Option<Seq<StmtShape>>;

/// Does `syn` parse all of `toks` as the statements of a block?
pub open spec fn rust_block_ok(toks: Seq<TokV>) -> bool {
    rust_block(toks) is Some
}

/// Does `syn` parse `toks` as the statements of a block that hold exactly
/// one expression statement without a trailing semicolon?
pub open spec fn rust_single_expr_block(toks: Seq<TokV>) -> bool {
    match rust_block(toks) {
        Some(s) => s.len() == 1 && s[0] == StmtShape::Expr(false),
        None => false,
    }
}

/// The text `proc_macro2`'s own printer (its fallback implementation of
/// `Display` for `TokenStream`) prints for the token stream `toks`.
pub uninterp spec fn token_text(toks: Seq<TokV>) -> Option<Seq<char>>;

/// What `prettyplease::unparse` prints for the file that `syn` parses from
/// `code` (`syn::parse_str::<syn::File>`); `None` when it does not parse.
/// Only asked of files that `prettyplease` prints (`syn_file_marked` false).
pub uninterp spec fn pretty_source(code: Seq<char>) -> Option<Seq<char>>;

/// `syn` parses one expression at the start of `toks[from..to]`; the result
/// is the number of token trees left after it (`rust_expr_rest`). The tokens
/// are collected into a `proc_macro2` stream with `tok_tree` and handed to
/// `Parser::parse2` with `expr_then_rest`, all on `proc_macro2`'s own
/// implementation (`fallback::force` for the call, `fallback::unforce`
/// after), so the result depends on the tokens alone.
#[verifier::external_body]
pub(crate) fn expr_rest_in(toks: &[Tok], from: usize, to: usize, allow_struct: bool) -> (r: Option<usize>)
    requires
        from <= to <= toks@.len(),
    ensures
        r == rust_expr_rest(toks_v(toks@.subrange(from as int, to as int)), allow_struct),
{
    proc_macro2::fallback::force();
    let ts = toks[from..to].iter().map(tok_tree).collect::<Option<proc_macro2::TokenStream>>();
    let r = match ts {
        Some(ts) => (|input: syn::parse::ParseStream| expr_then_rest(input, allow_struct)).parse2(ts).ok(),
        None => None,
    };
    proc_macro2::fallback::unforce();
    r
}

/// `syn::Pat::parse_multi_with_leading_vert` over all of `toks`, on
/// `proc_macro2`'s own implementation (`fallback::force` for the call).
#[verifier::external_body]
pub(crate) fn pat_ok(toks: &[Tok]) -> (r: bool)
    ensures
        r == rust_pat_ok(toks_v(toks@)),
{
    proc_macro2::fallback::force();
    let r = match toks.iter().map(tok_tree).collect::<Option<proc_macro2::TokenStream>>() {
        Some(ts) => syn::Pat::parse_multi_with_leading_vert.parse2(ts).is_ok(),
        None => false,
    };
    proc_macro2::fallback::unforce();
    r
}

/// The library's name for the kind of a `syn` statement.
#[verifier::external_body]
fn stmt_shape(st: &syn::Stmt) -> StmtShape {
    match st {
        syn::Stmt::Local(_) => StmtShape::Local,
        syn::Stmt::Item(_) => StmtShape::Item,
        syn::Stmt::Expr(_, semi) => StmtShape::Expr(semi.is_some()),
        syn::Stmt::Macro(_) => StmtShape::Macro,
    }
}

/// `syn::Block::parse_within` over all of `toks`, on `proc_macro2`'s own
/// implementation (`fallback::force` for the call): when the statements
/// parse, the kind of each (`rust_block`).
#[verifier::external_body]
fn block_shape(toks: &[Tok]) -> (r: Option<Vec<StmtShape>>)
    ensures
        match r {
            Some(v) => rust_block(toks_v(toks@)) == Some(v@),
            None => rust_block(toks_v(toks@)) is None,
        },
{
    proc_macro2::fallback::force();
    let ts = toks.iter().map(tok_tree).collect::<Option<proc_macro2::TokenStream>>();
    let stmts = match ts {
        Some(ts) => syn::Block::parse_within.parse2(ts).ok(),
        None => None,
    };
    let r = match stmts {
        Some(st) => Some(st.iter().map(stmt_shape).collect()),
        None => None,
    };
    proc_macro2::fallback::unforce();
    r
}

/// Do all of `toks` parse as the statements of a block?
pub(crate) fn block_ok(toks: &[Tok]) -> (r: bool)
    ensures
        r == rust_block_ok(toks_v(toks@)),
{
    block_shape(toks).is_some()
}

/// Do `toks` parse as a block holding one expression without a semicolon?
pub(crate) fn single_expr_block(toks: &[Tok]) -> (r: bool)
    ensures
        r == rust_single_expr_block(toks_v(toks@)),
{
    match block_shape(toks) {
        Some(shapes) => shapes.len() == 1 && match shapes[0] {
            StmtShape::Expr(semi) => !semi,
            _ => false,
        },
        None => false,
    }
}

/// The `Display` text of the `proc_macro2` stream of `toks`. Inside a
/// procedural macro `proc_macro2` would hand printing to the compiler, whose
/// spacing may differ; `proc_macro2::fallback::force` makes the stream and
/// its text come from `proc_macro2`'s own implementation for the length of
/// the call (`fallback::unforce` restores detection), so the text is
/// `token_text` of the tokens wherever the code runs.
#[verifier::external_body]
pub(crate) fn stream_text(toks: &[Tok]) -> (r: Option<Vec<char>>)
    ensures
        r matches Some(v) ==> token_text(toks_v(toks@)) == Some(v@),
        r is None ==> token_text(toks_v(toks@)) is None,
{
    proc_macro2::fallback::force();
    let ts = toks.iter().map(tok_tree).collect::<Option<proc_macro2::TokenStream>>();
    let r = match ts {
        Some(t) => Some(t.to_string().chars().collect()),
        None => None,
    };
    proc_macro2::fallback::unforce();
    r
}

/// The marks in `syn`'s `Debug` text of a parsed file that show what
/// `prettyplease` may not print: a `Verbatim(` node of any kind, or the word
/// `macro_rules`.
pub open spec fn shows_unprintable(debug: Seq<char>) -> bool {
    has_subseq(debug, "Verbatim("@) || has_subseq(debug, "macro_rules"@)
}

/// Does `p` occur in `s`?
pub open spec fn has_subseq(s: Seq<char>, p: Seq<char>) -> bool {
    exists|i: int| 0 <= i && i + p.len() <= s.len() && #[trigger] s.subrange(i, i + p.len()) == p
}

/// Whether the `Debug` text (`{:?}`) of the file `syn` parses from `code`
/// (`syn::parse_str::<syn::File>`) shows a mark of `shows_unprintable`;
/// `None` when `code` does not parse. Spans print as numbers there, so
/// whether a mark shows depends on `code` alone.
pub uninterp spec fn syn_file_marked(code: Seq<char>) -> Option<bool>;

/// `syn::parse_str::<syn::File>` on `code`, its `Debug` text, on
/// `proc_macro2`'s own implementation (`fallback::force` for the call).
#[verifier::external_body]
pub(crate) fn file_debug(code: &[char]) -> (r: Option<Vec<char>>)
    ensures
        match r {
            Some(d) => syn_file_marked(code@) == Some(shows_unprintable(d@)),
            None => syn_file_marked(code@) is None,
        },
{
    let s: String = code.iter().collect();
    proc_macro2::fallback::force();
    let r = match syn::parse_str::<syn::File>(&s) {
        Ok(f) => Some(format!("{:?}", f).chars().collect()),
        Err(_) => None,
    };
    proc_macro2::fallback::unforce();
    r
}

/// `syn::parse_str::<syn::File>` on `code`, printed by `prettyplease::unparse`,
/// on `proc_macro2`'s own implementation (`fallback::force` for the call).
/// `prettyplease` panics (`unimplemented!`) on a file holding a `Verbatim`
/// node (without its `verbatim` feature, as built here) and on a
/// `macro_rules!` body it cannot lay out; every other construct of `syn`'s
/// syntax tree has an arm in its printer. The `requires` leaves out every
/// file whose `Debug` text shows `Verbatim(` or `macro_rules`, and so both.
#[verifier::external_body]
pub(crate) fn pretty(code: &[char]) -> (r: Option<Vec<char>>)
    requires
        syn_file_marked(code@) == Some(false),
    ensures
        r matches Some(v) ==> pretty_source(code@) == Some(v@),
        r is None ==> pretty_source(code@) is None,
{
    let s: String = code.iter().collect();
    proc_macro2::fallback::force();
    let r = match syn::parse_str::<syn::File>(&s) {
        Ok(f) => Some(prettyplease::unparse(&f).chars().collect()),
        Err(_) => None,
    };
    proc_macro2::fallback::unforce();
    r
}

/// Does `p` occur in `s` at `i`?
fn occurs_at(s: &[char], p: &[char], i: usize) -> (r: bool)
    requires
        i + p@.len() <= s@.len(),
    ensures
        r == (s@.subrange(i as int, i + p@.len()) == p@),
{
    let mut k: usize = 0;
    while k < p.len()
        invariant
            k <= p@.len(),
            i + p@.len() <= s@.len(),
            s@.len() == s.len(),
            forall|j: int| 0 <= j < k ==> s@[i + j] == p@[j],
        decreases p@.len() - k,
    {
        let idx: usize = i + k;
        if s[idx] != p[k] {
            assert(s@.subrange(i as int, i + p@.len())[k as int] != p@[k as int]);
            return false;
        }
        k = k + 1;
    }
    assert(s@.subrange(i as int, i + p@.len()) =~= p@);
    true
}

/// Does `p` occur in `s` (`has_subseq`)?
pub fn contains_seq(s: &[char], p: &[char]) -> (r: bool)
    ensures
        r == has_subseq(s@, p@),
{
    if p.len() > s.len() {
        return false;
    }
    let last = s.len() - p.len();
    let mut i: usize = 0;
    loop
        invariant
            p@.len() <= s@.len(),
            last == s@.len() - p@.len(),
            i <= last,
            forall|j: int| 0 <= j < i ==> #[trigger] s@.subrange(j, j + p@.len()) != p@,
        decreases last - i,
    {
        if occurs_at(s, p, i) {
            return true;
        }
        if i == last {
            assert forall|j: int| 0 <= j && j + p@.len() <= s@.len() implies #[trigger] s@.subrange(j, j + p@.len()) != p@ by {
                if j == i {
                } else {
                    assert(j < i);
                }
            }
            return false;
        }
        i = i + 1;
    }
}

/// Does a `Debug` text show a mark of `shows_unprintable`?
pub fn unprintable_marked(debug: &[char]) -> (r: bool)
    ensures
        r == shows_unprintable(debug@),
{
    let a = crate::text::chars_of("Verbatim(");
    let b = crate::text::chars_of("macro_rules");
    contains_seq(debug, a.as_slice()) || contains_seq(debug, b.as_slice())
}

} // verus!
