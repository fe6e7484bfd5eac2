//! The DSL formatter: a parsed `ui!` body laid out again, four spaces per
//! nesting level, with the embedded Rust pretty-printed.

use vstd::prelude::*;
use crate::text::{byte_len, char_width, chars_of, join, lemma_byte_len_push, push_all, push_str};
use crate::layout::{join_lines, vecs_view};
use crate::token::Tok;
use crate::ds_node::{DsAttr, DsOn, attrs_v, exprs_v, ons_v};
use crate::fmt_expr::{deeper_of, fmt_block, fmt_expr};
use crate::fmt_spec;
use crate::fmt_spec::{concat, deeper, MAX_LINE_WIDTH};

verus! {

broadcast use vstd::seq_lib::group_seq_properties;

pub proof fn lemma_concat_push(parts: Seq<Seq<char>>, p: Seq<char>)
    ensures
        concat(parts.push(p)) == concat(parts) + p,
{
    assert(parts.push(p).drop_last() =~= parts);
}

/// `concat` of the first `k + 1` parts.
pub proof fn lemma_concat_take(parts: Seq<Seq<char>>, k: int)
    requires
        0 <= k < parts.len(),
    ensures
        concat(parts.take(k + 1)) == concat(parts.take(k)) + parts[k],
{
    assert(parts.take(k + 1) =~= parts.take(k).push(parts[k]));
    lemma_concat_push(parts.take(k), parts[k]);
}

/// Width of `s` in UTF-8 bytes (`str::len`).
pub(crate) fn byte_count(s: &[char]) -> (r: u128)
    ensures
        r == byte_len(s@),
        r <= 4 * s@.len(),
        r <= 4 * usize::MAX,
{
    let n = s.len();
    let mut i: usize = 0;
    let mut bytes: u128 = 0;
    while i < n
        invariant
            n == s@.len(),
            i <= n,
            bytes == byte_len(s@.take(i as int)),
            bytes <= 4 * i,
        decreases n - i,
    {
        let w = char_width(s[i]);
        proof {
            lemma_byte_len_push(s@.take(i as int), s@[i as int]);
            assert(s@.take(i + 1) =~= s@.take(i as int).push(s@[i as int]));
        }
        bytes = bytes + w as u128;
        i = i + 1;
    }
    assert(s@.take(n as int) =~= s@);
    bytes
}

/// One attribute as written in a list (`attr_text`).
fn attr_text(a: &DsAttr, attr_indent: &[char]) -> (r: Vec<char>)
    ensures
        r@ == fmt_spec::attr_text(a@, attr_indent@),
{
    let mut v: Vec<char> = Vec::new();
    match &a.name {
        Some(n) => {
            push_all(&mut v, n.as_slice());
            push_str(&mut v, ": ");
        },
        None => {},
    }
    if a.reactive {
        push_str(&mut v, "$");
    }
    let e = fmt_expr(a.value.as_slice(), attr_indent);
    push_all(&mut v, e.as_slice());
    assert(v@ =~= fmt_spec::attr_text(a@, attr_indent@));
    v
}

/// A widget's attribute list (`attrs_text`).
pub(crate) fn format_attrs(attrs: &[DsAttr], indent: &[char], name_len: u128, out: &mut Vec<char>)
    requires
        name_len <= 4 * usize::MAX,
    ensures
        final(out)@ == old(out)@ + fmt_spec::attrs_text(attrs_v(attrs@), indent@, name_len as nat),
{
    let ghost av = attrs_v(attrs@);
    if attrs.len() == 0 {
        push_str(out, "()");
        return;
    }
    let ai = deeper_of(indent);
    let mut strs: Vec<Vec<char>> = Vec::new();
    let mut i: usize = 0;
    while i < attrs.len()
        invariant
            i <= attrs@.len(),
            av == attrs_v(attrs@),
            strs@.len() == i,
            forall|j: int| 0 <= j < i ==> (#[trigger] strs@[j])@ == fmt_spec::attr_text(av[j], ai@),
        decreases attrs@.len() - i,
    {
        let s = attr_text(&attrs[i], ai.as_slice());
        strs.push(s);
        i = i + 1;
    }
    let ghost sv = fmt_spec::attr_texts(av, ai@);
    assert(vecs_view(strs@) =~= sv);
    let sep = chars_of(", ");
    let single = join_lines(strs.as_slice(), sep.as_slice());
    let first_line = attrs[0].first_line;
    let last_line = attrs[attrs.len() - 1].last_line;
    let il = indent.len();
    let sl = single.len();
    let ib = byte_count(indent);
    let sb = byte_count(single.as_slice());
    assert(ib <= 4 * il && sb <= 4 * sl);
    let total = ib + name_len + 1 + sb + 1 + 3;
    if last_line > first_line || total > MAX_LINE_WIDTH {
        let ghost start = out@;
        push_str(out, "(\n");
        let ghost parts = Seq::new(
            sv.len(),
            |k: int|
                ai@ + sv[k] + (if k + 1 < sv.len() {
                    ","@
                } else {
                    Seq::empty()
                }) + "\n"@,
        );
        let mut k: usize = 0;
        while k < strs.len()
            invariant
                k <= strs@.len(),
                vecs_view(strs@) == sv,
                parts.len() == sv.len(),
                parts == Seq::new(
                    sv.len(),
                    |k: int|
                        ai@ + sv[k] + (if k + 1 < sv.len() {
                            ","@
                        } else {
                            Seq::empty()
                        }) + "\n"@,
                ),
                out@ == start + "(\n"@ + concat(parts.take(k as int)),
            decreases strs@.len() - k,
        {
            push_all(out, ai.as_slice());
            push_all(out, strs[k].as_slice());
            if k + 1 < strs.len() {
                push_str(out, ",");
            }
            push_str(out, "\n");
            proof {
                lemma_concat_take(parts, k as int);
                assert(sv[k as int] == strs@[k as int]@);
            }
            assert(out@ =~= start + "(\n"@ + concat(parts.take(k + 1)));
            k = k + 1;
        }
        assert(parts.take(sv.len() as int) =~= parts);
        push_all(out, indent);
        push_str(out, ")");
        assert(out@ =~= start + ("(\n"@ + fmt_spec::attr_lines(sv, ai@) + indent@ + ")"@));
    } else {
        let ghost start = out@;
        push_str(out, "(");
        push_all(out, single.as_slice());
        push_str(out, ")");
        assert(out@ =~= start + ("("@ + join(sv, ", "@) + ")"@));
    }
}

/// A widget's `[ enchants ]` (`enchants_text`).
pub(crate) fn format_enchants(en: &[Vec<Tok>], indent: &[char], out: &mut Vec<char>)
    ensures
        final(out)@ == old(out)@ + fmt_spec::enchants_text(exprs_v(en@), indent@),
{
    let ghost ev = exprs_v(en@);
    if en.len() == 0 {
        assert(out@ =~= old(out)@ + fmt_spec::enchants_text(ev, indent@));
        return;
    }
    let ci = deeper_of(indent);
    let ghost start = out@;
    let ghost parts = Seq::new(ev.len(), |i: int| ci@ + fmt_spec::fmt_expr(ev[i], ci@) + ",\n"@);
    push_str(out, " [\n");
    let mut i: usize = 0;
    while i < en.len()
        invariant
            i <= en@.len(),
            ev == exprs_v(en@),
            ci@ == deeper(indent@),
            parts == Seq::new(ev.len(), |i: int| ci@ + fmt_spec::fmt_expr(ev[i], ci@) + ",\n"@),
            out@ == start + " [\n"@ + concat(parts.take(i as int)),
        decreases en@.len() - i,
    {
        push_all(out, ci.as_slice());
        let e = fmt_expr(en[i].as_slice(), ci.as_slice());
        push_all(out, e.as_slice());
        push_str(out, ",\n");
        proof {
            lemma_concat_take(parts, i as int);
        }
        assert(out@ =~= start + " [\n"@ + concat(parts.take(i + 1)));
        i = i + 1;
    }
    assert(parts.take(ev.len() as int) =~= parts);
    push_all(out, indent);
    push_str(out, "]");
    assert(out@ =~= start + fmt_spec::enchants_text(ev, indent@));
}

/// A handler's `(args)` (`args_text`).
fn format_args(args: &[Vec<Tok>], indent: &[char], out: &mut Vec<char>)
    ensures
        final(out)@ == old(out)@ + fmt_spec::args_text(exprs_v(args@), indent@),
{
    let ghost av = exprs_v(args@);
    if args.len() == 0 {
        assert(out@ =~= old(out)@ + fmt_spec::args_text(av, indent@));
        return;
    }
    let ghost sv = Seq::new(av.len(), |i: int| fmt_spec::fmt_expr(av[i], indent@));
    let mut strs: Vec<Vec<char>> = Vec::new();
    let mut i: usize = 0;
    while i < args.len()
        invariant
            i <= args@.len(),
            av == exprs_v(args@),
            sv == Seq::new(av.len(), |i: int| fmt_spec::fmt_expr(av[i], indent@)),
            strs@.len() == i,
            forall|j: int| 0 <= j < i ==> (#[trigger] strs@[j])@ == sv[j],
        decreases args@.len() - i,
    {
        let s = fmt_expr(args[i].as_slice(), indent);
        strs.push(s);
        i = i + 1;
    }
    assert(vecs_view(strs@) =~= sv);
    let sep = chars_of(", ");
    let joined = join_lines(strs.as_slice(), sep.as_slice());
    let ghost start = out@;
    push_str(out, "(");
    push_all(out, joined.as_slice());
    push_str(out, ")");
    assert(out@ =~= start + fmt_spec::args_text(av, indent@));
}

/// One handler (`on_text`).
fn format_on(h: &DsOn, indent: &[char], out: &mut Vec<char>)
    ensures
        final(out)@ == old(out)@ + fmt_spec::on_text(h@, indent@),
{
    let ghost start = out@;
    push_str(out, " on ");
    match &h.qualifier {
        Some(q) => {
            push_all(out, q.as_slice());
            push_str(out, "::");
        },
        None => {},
    }
    push_all(out, h.name.as_slice());
    format_args(h.args.as_slice(), indent, out);
    match &h.body {
        Some(b) => {
            push_str(out, " ");
            let t = fmt_block(b.as_slice(), indent);
            push_all(out, t.as_slice());
        },
        None => {},
    }
    assert(out@ =~= start + fmt_spec::on_text(h@, indent@));
}

/// All handlers of a widget (`ons_text`).
pub(crate) fn format_ons(hs: &[DsOn], indent: &[char], out: &mut Vec<char>)
    ensures
        final(out)@ == old(out)@ + fmt_spec::ons_text(ons_v(hs@), indent@),
{
    let ghost hv = ons_v(hs@);
    let ghost parts = Seq::new(hv.len(), |i: int| fmt_spec::on_text(hv[i], indent@));
    let ghost start = out@;
    let mut i: usize = 0;
    while i < hs.len()
        invariant
            i <= hs@.len(),
            hv == ons_v(hs@),
            parts == Seq::new(hv.len(), |i: int| fmt_spec::on_text(hv[i], indent@)),
            out@ == start + concat(parts.take(i as int)),
        decreases hs@.len() - i,
    {
        format_on(&hs[i], indent, out);
        proof {
            lemma_concat_take(parts, i as int);
        }
        assert(out@ =~= start + concat(parts.take(i + 1)));
        i = i + 1;
    }
    assert(parts.take(hv.len() as int) =~= parts);
}

} // verus!
