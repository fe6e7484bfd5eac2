//! Laying out the Rust that the DSL embeds: expressions, handler bodies and
//! `${ ... }` code blocks, each pretty-printed inside a wrapper function and
//! cut back out of it.

use vstd::prelude::*;
use crate::text::{contains_char, find_char, lemma_first_index, lemma_last_index, lines_trimmed, push_all, push_str, text_lines, trimmed_end, trimmed_nl, trimmed_start};
use crate::layout::{join_lines, rebase_lines, vecs_view};
use crate::syntax::{file_debug, pretty, single_expr_block, stream_text, unprintable_marked};
use crate::token::{Delim, Lines, Tok, TokV, lemma_toks_v, toks_clone, toks_v};
use crate::fmt_spec;

verus! {

broadcast use vstd::seq_lib::group_seq_properties;

/// The printed text of a token stream (`text_of`).
pub fn tok_text(toks: &[Tok]) -> (r: Vec<char>)
    ensures
        r@ == fmt_spec::text_of(toks_v(toks@)),
{
    match stream_text(toks) {
        Some(v) => v,
        None => Vec::new(),
    }
}

/// The printed text of a token stream, as a `String` (`text_of`).
pub fn token_string(toks: &[Tok]) -> (r: String)
    ensures
        r@ == fmt_spec::text_of(toks_v(toks@)),
{
    let v = tok_text(toks);
    crate::text::string_of(v.as_slice())
}

/// The single token `{ inner }`.
pub fn brace_group(inner: &[Tok]) -> (r: Vec<Tok>)
    ensures
        toks_v(r@) == seq![TokV::Group(Delim::Brace, toks_v(inner@))],
{
    let g = Tok::Group {
        delim: Delim::Brace,
        inner: toks_clone(inner),
        lines: Lines { start: 0, end: 0 },
        source: None,
    };
    let mut v: Vec<Tok> = Vec::new();
    v.push(g);
    proof {
        lemma_toks_v(v@);
        assert(toks_v(v@) =~= seq![TokV::Group(Delim::Brace, toks_v(inner@))]);
    }
    v
}

/// `indent` one level deeper.
pub fn deeper_of(indent: &[char]) -> (r: Vec<char>)
    ensures
        r@ == fmt_spec::deeper(indent@),
{
    let mut v: Vec<char> = Vec::new();
    push_all(&mut v, indent);
    push_str(&mut v, "    ");
    proof {
        reveal_strlit("    ");
    }
    assert(v@ =~= fmt_spec::deeper(indent@));
    v
}

/// The characters `s[a..b]`.
fn copy_range(s: &[char], a: usize, b: usize) -> (r: Vec<char>)
    requires
        a <= b <= s@.len(),
    ensures
        r@ == s@.subrange(a as int, b as int),
{
    let mut out: Vec<char> = Vec::new();
    let mut k: usize = a;
    while k < b
        invariant
            a <= k <= b,
            b <= s@.len(),
            out@ == s@.subrange(a as int, k as int),
        decreases b - k,
    {
        out.push(s[k]);
        k = k + 1;
        assert(out@ =~= s@.subrange(a as int, k as int));
    }
    out
}

/// The body lines of a pretty-printed wrapper (`body_lines`).
fn body_lines_of(f: &[char]) -> (r: Option<Vec<Vec<char>>>)
    ensures
        match (r, fmt_spec::body_lines(f@)) {
            (Some(v), Some(l)) => vecs_view(v@) == l,
            (None, None) => true,
            _ => false,
        },
{
    proof {
        lemma_first_index(f@, '{');
        lemma_last_index(f@, '}');
    }
    let open = match find_char(f, '{') {
        Some(i) => i,
        None => {
            return None;
        },
    };
    let close = match crate::text::rfind_char(f, '}') {
        Some(i) => i,
        None => {
            return None;
        },
    };
    if close <= open {
        return None;
    }
    let inner = copy_range(f, open + 1, close);
    let trimmed = trimmed_nl(inner.as_slice());
    let lines = lines_trimmed(trimmed.as_slice());
    assert(vecs_view(lines@) =~= text_lines(trimmed@));
    Some(lines)
}

/// Does `code` parse as a file that `prettyplease` prints
/// (`syn_file_marked` is `Some(false)`)?
fn printable(code: &[char]) -> (r: bool)
    ensures
        r == (crate::syntax::syn_file_marked(code@) == Some(false)),
{
    match file_debug(code) {
        Some(d) => !unprintable_marked(d.as_slice()),
        None => false,
    }
}

/// A non-block expression (`fmt_plain`).
fn fmt_plain(toks: &[Tok], indent: &[char]) -> (r: Vec<char>)
    ensures
        r@ == fmt_spec::fmt_plain(toks_v(toks@), indent@),
{
    let text = tok_text(toks);
    let mut code: Vec<char> = Vec::new();
    push_str(&mut code, "fn __xrune_fmt_expr_wrapper() { ");
    push_all(&mut code, text.as_slice());
    push_str(&mut code, " }");
    assert(code@ =~= fmt_spec::expr_wrapper(text@));
    if !printable(code.as_slice()) {
        return text;
    }
    let f = match pretty(code.as_slice()) {
        Some(f) => f,
        None => {
            return text;
        },
    };
    let lines = match body_lines_of(f.as_slice()) {
        Some(l) => l,
        None => {
            return text;
        },
    };
    if lines.len() <= 1 || indent.len() == 0 {
        let nl: Vec<char> = vec!['\n'];
        assert(nl@ =~= seq!['\n']);
        let joined = join_lines(lines.as_slice(), nl.as_slice());
        trimmed_start(joined.as_slice())
    } else {
        rebase_lines(lines.as_slice(), indent, true)
    }
}

/// A braced body laid out under `indent` (`wrapped_body`).
fn wrapped_body(text: &[char], indent: &[char]) -> (r: Option<Vec<char>>)
    ensures
        match (r, fmt_spec::wrapped_body(text@, indent@)) {
            (Some(v), Some(s)) => v@ == s,
            (None, None) => true,
            _ => false,
        },
{
    let mut code: Vec<char> = Vec::new();
    push_str(&mut code, "fn __xrune_fmt_block_wrapper() ");
    push_all(&mut code, text);
    assert(code@ =~= fmt_spec::block_wrapper(text@));
    if !printable(code.as_slice()) {
        return None;
    }
    let f = match pretty(code.as_slice()) {
        Some(f) => f,
        None => {
            return None;
        },
    };
    let lines = match body_lines_of(f.as_slice()) {
        Some(l) => l,
        None => {
            return None;
        },
    };
    let body_indent = deeper_of(indent);
    let body = rebase_lines(lines.as_slice(), body_indent.as_slice(), false);
    let mut out: Vec<char> = Vec::new();
    if body.len() == 0 {
        push_str(&mut out, "{ }");
        assert(out@ =~= "{ }"@);
    } else if !contains_char(body.as_slice(), '\n') {
        let t = trimmed_end(trimmed_start(body.as_slice()).as_slice());
        push_str(&mut out, "{ ");
        push_all(&mut out, t.as_slice());
        push_str(&mut out, " }");
        assert(out@ =~= "{ "@ + crate::text::trim(body@) + " }"@);
    } else {
        push_str(&mut out, "{\n");
        push_all(&mut out, body.as_slice());
        push_str(&mut out, "\n");
        push_all(&mut out, indent);
        push_str(&mut out, "}");
        assert(out@ =~= "{\n"@ + body@ + "\n"@ + indent@ + "}"@);
    }
    Some(out)
}

/// A block `{ inner }` laid out at `indent` (`fmt_block`).
pub fn fmt_block(inner: &[Tok], indent: &[char]) -> (r: Vec<char>)
    ensures
        r@ == fmt_spec::fmt_block(toks_v(inner@), indent@),
{
    let g = brace_group(inner);
    let t = tok_text(g.as_slice());
    match wrapped_body(t.as_slice(), indent) {
        Some(b) => b,
        None => t,
    }
}

/// A `${ tokens }` code block after its `$` (`fmt_code_block`).
pub fn fmt_code_block(tokens: &[Tok], indent: &[char]) -> (r: Vec<char>)
    ensures
        r@ == fmt_spec::fmt_code_block(toks_v(tokens@), indent@),
{
    let g = brace_group(tokens);
    let t = tok_text(g.as_slice());
    match wrapped_body(t.as_slice(), indent) {
        Some(b) => b,
        None => {
            let mut out: Vec<char> = Vec::new();
            push_str(&mut out, "{ ");
            let inner = tok_text(tokens);
            push_all(&mut out, inner.as_slice());
            push_str(&mut out, " }");
            assert(out@ =~= "{ "@ + fmt_spec::text_of(toks_v(tokens@)) + " }"@);
            out
        },
    }
}

/// An embedded Rust expression laid out at `indent` (`fmt_expr`).
pub fn fmt_expr(toks: &[Tok], indent: &[char]) -> (r: Vec<char>)
    ensures
        r@ == fmt_spec::fmt_expr(toks_v(toks@), indent@),
    decreases toks@,
{
    proof {
        lemma_toks_v(toks@);
    }
    if toks.len() == 1 {
        match &toks[0] {
            Tok::Group { delim: Delim::Brace, inner, .. } => {
                assert(decreases_to!(toks@ => toks@[0]));
                if single_expr_block(inner.as_slice()) {
                    let one = fmt_expr(inner.as_slice(), indent);
                    if !contains_char(one.as_slice(), '\n') {
                        let mut out: Vec<char> = Vec::new();
                        push_str(&mut out, "{ ");
                        push_all(&mut out, one.as_slice());
                        push_str(&mut out, " }");
                        assert(out@ =~= "{ "@ + one@ + " }"@);
                        return out;
                    }
                }
                fmt_block(inner.as_slice(), indent)
            },
            _ => fmt_plain(toks, indent),
        }
    } else {
        fmt_plain(toks, indent)
    }
}

} // verus!
