//! Properties of the library as a whole: what re-indenting keeps, what the
//! formatter always writes, which inputs the parser refuses and with what.

use vstd::prelude::*;
use crate::text::{byte_len, is_ws, lead_bytes, lead_ws, lemma_byte_len_push, lemma_encode_append, lemma_lead_ws_bound, spaces, trim_start};
use vstd::utf8::encode_scalar;
use crate::layout::{base_lead, lemma_min_lead_le, min_lead, rebase_line, rebased};
use crate::text::{join, lemma_split_nl_len, lemma_trail_ws_bound, split_nl, trail_ws, trim_end};
use crate::token::{Delim, Tok, TokV, at_group, at_punct, at_word, lemma_toks_v, tok_v, toks_v};
use crate::xwrapup::{XwAttrV, xw_attrs};
use crate::grammar::{ident_of, span_v};
use crate::ds_node::{ArmV, AttrV, NodeV, RootV, TreeV, WidgetV};
use crate::rune_spec::{close_stmt, emit, emit_all, emit_arms, print_stmt, root_stmt, str_lit};
use crate::fmt_spec::text_of;
use crate::grammar;
use crate::grammar::DsError;
use crate::fmt_spec::{deeper, dsl_text, else_text, header_text, sigil, tree_text, widget_head};

verus! {

broadcast use vstd::seq_lib::group_seq_properties;

proof fn lemma_lead_ws_concat(a: Seq<char>, b: Seq<char>)
    requires
        forall|i: int| 0 <= i < a.len() ==> is_ws(#[trigger] a[i]),
    ensures
        lead_ws(a + b) == a.len() + lead_ws(b),
    decreases a.len(),
{
    if a.len() > 0 {
        assert((a + b).drop_first() =~= a.drop_first() + b);
        assert(forall|i: int| 0 <= i < a.drop_first().len() ==> a.drop_first()[i] == a[i + 1]);
        lemma_lead_ws_concat(a.drop_first(), b);
    } else {
        assert(a + b =~= b);
    }
}

proof fn lemma_byte_len_spaces(n: nat)
    ensures
        byte_len(spaces(n)) == n,
    decreases n,
{
    if n > 0 {
        lemma_byte_len_spaces((n - 1) as nat);
        assert(spaces(n) =~= spaces((n - 1) as nat).push(' '));
        lemma_byte_len_push(spaces((n - 1) as nat), ' ');
        assert(encode_scalar(' ' as u32).len() == 1);
    }
}

/// Re-indenting never fills an empty line: it stays empty.
pub proof fn law_rebase_empty_line_stays_empty(line: Seq<char>, indent: Seq<char>, base: nat, bare: bool)
    requires
        line.len() == 0,
    ensures
        rebase_line(line, indent, base, bare).len() == 0,
{
}

/// Re-indenting a block keeps its relative nesting: a non-empty line that
/// is not the bare first line keeps its text, and its lead becomes the
/// indent's width plus what its lead exceeded the block's smallest lead by.
/// So two such lines differ in lead by exactly what they differed by before.
pub proof fn law_rebase_keeps_relative_nesting(lines: Seq<Seq<char>>, indent: Seq<char>, i: int)
    requires
        0 <= i < lines.len(),
        lines[i].len() > 0,
        forall|k: int| 0 <= k < indent.len() ==> is_ws(#[trigger] indent[k]),
    ensures
        base_lead(lines) <= lead_bytes(lines[i]),
        trim_start(rebase_line(lines[i], indent, base_lead(lines), false)) == trim_start(lines[i]),
        lead_bytes(rebase_line(lines[i], indent, base_lead(lines), false)) == byte_len(indent)
            + lead_bytes(lines[i]) - base_lead(lines),
{
    let l = lines[i];
    let base = base_lead(lines);
    lemma_min_lead_le(lines, i);
    let k = (lead_bytes(l) - base) as nat;
    let w = indent + spaces(k);
    let t = trim_start(l);
    let out = rebase_line(l, indent, base, false);
    assert(out == w + t);
    assert forall|j: int| 0 <= j < w.len() implies is_ws(#[trigger] w[j]) by {
        if j >= indent.len() {
            assert(w[j] == ' ');
        }
    }
    lemma_lead_ws_bound(l);
    lemma_lead_ws_bound(t);
    if t.len() > 0 {
        assert(t[0] == l[lead_ws(l) as int]);
    }
    assert(lead_ws(t) == 0);
    lemma_lead_ws_concat(w, t);
    assert(lead_ws(out) == w.len());
    assert(out.take(lead_ws(out) as int) =~= w);
    lemma_encode_append(indent, spaces(k));
    lemma_byte_len_spaces(k);
    assert(out.skip(lead_ws(out) as int) =~= t);
    lemma_lead_ws_bound(t);
    assert(t.skip(0) =~= t);
}

/// The formatter keeps the reactive `$` of an `if`, `walk` or `match`:
/// it is written right after the keyword.
pub proof fn law_format_keeps_reactive_sigil(t: TreeV, indent: Seq<char>)
    ensures
        t.node matches NodeV::If { reactive, .. } ==> (indent + "if "@ + sigil(reactive)).is_prefix_of(
            tree_text(t, indent),
        ),
        t.node matches NodeV::Iter { reactive, .. } ==> (indent + "walk "@ + sigil(
            reactive,
        )).is_prefix_of(tree_text(t, indent)),
        t.node matches NodeV::Match { reactive, .. } ==> (indent + "match "@ + sigil(
            reactive,
        )).is_prefix_of(tree_text(t, indent)),
{
    reveal_strlit("if ");
    reveal_strlit("walk ");
    reveal_strlit("match ");
    reveal_strlit("$");
    match t.node {
        NodeV::If { reactive, .. } => {
            let p = indent + "if "@ + sigil(reactive);
            assert(tree_text(t, indent).subrange(0, p.len() as int) =~= p);
        },
        NodeV::Iter { reactive, .. } => {
            let p = indent + "walk "@ + sigil(reactive);
            assert(tree_text(t, indent).subrange(0, p.len() as int) =~= p);
        },
        NodeV::Match { reactive, .. } => {
            let p = indent + "match "@ + sigil(reactive);
            assert(tree_text(t, indent).subrange(0, p.len() as int) =~= p);
        },
        _ => {},
    }
}

/// An `elif` link is written as `elif`, never as `else if`; a terminal
/// `else` is written as `else`.
pub proof fn law_format_writes_elif(b: TreeV, indent: Seq<char>)
    ensures
        b.node is If ==> else_text(Some(Box::new(b)), indent).take(6) == " elif "@,
        b.node is Else ==> else_text(Some(Box::new(b)), indent).take(6) == " else "@,
{
    reveal_strlit(" elif ");
    reveal_strlit(" else ");
    if b.node is If {
        assert(else_text(Some(Box::new(b)), indent).take(6) =~= " elif "@);
    }
    if b.node is Else {
        assert(else_text(Some(Box::new(b)), indent).take(6) =~= " else "@);
    }
}

/// A widget with no children is written without braces: its head, then
/// the end of the line.
pub proof fn law_childless_widget_has_no_braces(t: TreeV, w: WidgetV, indent: Seq<char>)
    requires
        t.node == NodeV::Widget(w),
        t.children.len() == 0,
    ensures
        tree_text(t, indent) == widget_head(w, indent) + "\n"@,
{
}

/// With no context attributes, the formatted body has no `:( :)` header:
/// it is the content tree alone.
pub proof fn law_no_header_without_context(r: RootV, base_indent: Seq<char>)
    requires
        r.context_attrs.len() == 0,
    ensures
        dsl_text(r, base_indent) == tree_text(r.content, deeper(base_indent)),
{
    assert(header_text(r.context_attrs, deeper(base_indent)) =~= Seq::<char>::empty());
    assert(dsl_text(r, base_indent) =~= tree_text(r.content, deeper(base_indent)));
}

/// A body that starts with `on` (no widget before it) is refused with
/// `OnWithoutWidget`, as a tree and as a `ui!` body.
pub proof fn law_on_without_widget_refused(s: Seq<Tok>)
    requires
        at_word(s, 0, "on"@),
    ensures
        grammar::tree_all(s) == Err::<TreeV, DsError>(DsError::OnWithoutWidget),
        grammar::root(s) == Err::<RootV, DsError>(DsError::OnWithoutWidget),
{
    lemma_on_announces_refusal(s);
    crate::node_type::lemma_node_type_announces(s, 0);
    assert(grammar::tree(s, 0) == Err::<(TreeV, int), DsError>(DsError::OnWithoutWidget));
    assert(!at_punct(s, 0, ':'));
}

proof fn lemma_on_announces_refusal(s: Seq<Tok>)
    requires
        at_word(s, 0, "on"@),
    ensures
        crate::node_type::node_type(s, 0) == Err::<crate::node_type::DsNodeType, DsError>(
            DsError::OnWithoutWidget,
        ),
{
    reveal_strlit("on");
    reveal_strlit("match");
    reveal_strlit("if");
    reveal_strlit("walk");
    let text = grammar::ident_of(s[0]);
    assert(text == "on"@);
    assert(text.len() == 2);
    assert(text != "match"@);
    assert("on"@[0] == 'o' && "if"@[0] == 'i');
    assert(text[0] != "if"@[0]);
    assert(text != "if"@);
    assert(text != "walk"@);
    assert(crate::token::is_dsl_keyword(text));
}

/// A `:( ... :)` header written on one line with several attributes is
/// refused with `HeaderOneLine`.
pub proof fn law_header_on_one_line_refused(s: Seq<Tok>)
    requires
        at_punct(s, 0, ':'),
        at_group(s, 1, Delim::Paren),
        grammar::one_line(s[1]),
        grammar::attr_list(grammar::inner_of(s[1]), 0, Seq::empty(), true) matches Ok(a) && a.len() > 1,
    ensures
        grammar::root(s) == Err::<RootV, DsError>(DsError::HeaderOneLine),
{
}


proof fn lemma_min_lead_attained(lines: Seq<Seq<char>>)
    requires
        min_lead(lines) is Some,
    ensures
        exists|i: int|
            0 <= i < lines.len() && lines[i].len() > 0 && #[trigger] lead_bytes(lines[i])
                == min_lead(lines)->0,
    decreases lines.len(),
{
    let rest = lines.drop_last();
    let l = lines.last();
    if l.len() == 0 {
        lemma_min_lead_attained(rest);
        let i = choose|i: int|
            0 <= i < rest.len() && rest[i].len() > 0 && #[trigger] lead_bytes(rest[i])
                == min_lead(rest)->0;
        assert(lines[i] == rest[i]);
    } else if min_lead(rest) is Some && min_lead(rest)->0 <= lead_bytes(l) {
        lemma_min_lead_attained(rest);
        let i = choose|i: int|
            0 <= i < rest.len() && rest[i].len() > 0 && #[trigger] lead_bytes(rest[i])
                == min_lead(rest)->0;
        assert(lines[i] == rest[i]);
    } else {
        assert(lead_bytes(lines[lines.len() - 1]) == min_lead(lines)->0);
    }
}

/// Re-indenting puts the least-indented non-empty line exactly at the
/// indent: some non-empty line's lead becomes the indent's width.
pub proof fn law_rebase_least_indented_line_at_indent(lines: Seq<Seq<char>>, indent: Seq<char>)
    requires
        exists|i: int| 0 <= i < lines.len() && #[trigger] lines[i].len() > 0,
        forall|k: int| 0 <= k < indent.len() ==> is_ws(#[trigger] indent[k]),
    ensures
        exists|i: int|
            0 <= i < lines.len() && lines[i].len() > 0 && #[trigger] lead_bytes(
                rebase_line(lines[i], indent, base_lead(lines), false),
            ) == byte_len(indent),
{
    let j = choose|i: int| 0 <= i < lines.len() && #[trigger] lines[i].len() > 0;
    lemma_min_lead_le(lines, j);
    lemma_min_lead_attained(lines);
    let i = choose|i: int|
        0 <= i < lines.len() && lines[i].len() > 0 && #[trigger] lead_bytes(lines[i])
            == min_lead(lines)->0;
    law_rebase_keeps_relative_nesting(lines, indent, i);
}

/// The `:( ... :)` header is optional: a body that does not start with `:`
/// parses as its content tree, with no context attributes and `()` as the
/// parent expression.
pub proof fn law_header_optional(s: Seq<Tok>)
    requires
        !at_punct(s, 0, ':'),
    ensures
        grammar::root(s) == match grammar::tree_all(s) {
            Ok(t) => Ok(RootV { context_attrs: Seq::empty(), parent: grammar::unit_v(), content: t }),
            Err(e) => Err::<RootV, DsError>(e),
        },
{
}


/// No character of `s` is a newline.
pub open spec fn no_newline(s: Seq<char>) -> bool {
    forall|i: int| 0 <= i < s.len() ==> s[i] != '\n'
}

/// Lines whose leads all move by `d` bytes (the empty ones staying empty)
/// have their smallest lead moved by `d`.
proof fn lemma_min_lead_shift(a: Seq<Seq<char>>, b: Seq<Seq<char>>, d: int)
    requires
        a.len() == b.len(),
        forall|i: int| 0 <= i < a.len() ==> (#[trigger] a[i].len() == 0) == (b[i].len() == 0),
        forall|i: int| 0 <= i < a.len() && a[i].len() > 0 ==> lead_bytes(#[trigger] b[i]) == lead_bytes(a[i]) + d,
    ensures
        (min_lead(a) is None) == (min_lead(b) is None),
        min_lead(a) is Some ==> min_lead(b)->0 == min_lead(a)->0 + d,
    decreases a.len(),
{
    if a.len() > 0 {
        let a1 = a.drop_last();
        let b1 = b.drop_last();
        assert forall|i: int| 0 <= i < a1.len() implies (#[trigger] a1[i].len() == 0) == (b1[i].len() == 0) by {
            assert(a1[i] == a[i] && b1[i] == b[i]);
        }
        assert forall|i: int| 0 <= i < a1.len() && a1[i].len() > 0 implies lead_bytes(#[trigger] b1[i]) == lead_bytes(a1[i]) + d by {
            assert(a1[i] == a[i] && b1[i] == b[i]);
        }
        lemma_min_lead_shift(a1, b1, d);
        assert(a.last() == a[a.len() - 1] && b.last() == b[b.len() - 1]);
    }
}

/// `n` spaces in front of a line add `n` to its lead and leave its text.
proof fn lemma_spaces_front(n: nat, l: Seq<char>)
    ensures
        lead_ws(spaces(n) + l) == n + lead_ws(l),
        lead_bytes(spaces(n) + l) == n + lead_bytes(l),
        trim_start(spaces(n) + l) == trim_start(l),
{
    let w = spaces(n);
    assert forall|j: int| 0 <= j < w.len() implies is_ws(#[trigger] w[j]) by {
        assert(w[j] == ' ');
    }
    lemma_lead_ws_concat(w, l);
    lemma_lead_ws_bound(l);
    assert((w + l).take((n + lead_ws(l)) as int) =~= w + l.take(lead_ws(l) as int));
    lemma_encode_append(w, l.take(lead_ws(l) as int));
    lemma_byte_len_spaces(n);
    assert((w + l).skip((n + lead_ws(l)) as int) =~= l.skip(lead_ws(l) as int));
}

/// Removing a uniform extra lead: when every non-empty line gains the same
/// `k` leading spaces (empty lines staying empty), re-basing the block
/// gives the same text as before. The common lead is what `rebase` takes
/// away.
pub proof fn law_rebase_removes_uniform_lead(
    lines: Seq<Seq<char>>,
    lines2: Seq<Seq<char>>,
    k: nat,
    indent: Seq<char>,
    line0_bare: bool,
)
    requires
        lines2.len() == lines.len(),
        forall|i: int|
            0 <= i < lines.len() ==> #[trigger] lines2[i] == (if lines[i].len() == 0 {
                Seq::<char>::empty()
            } else {
                spaces(k) + lines[i]
            }),
    ensures
        rebased(lines2, indent, line0_bare) == rebased(lines, indent, line0_bare),
{
    assert forall|i: int| 0 <= i < lines.len() && lines[i].len() > 0 implies lead_bytes(#[trigger] lines2[i]) == lead_bytes(lines[i]) + k by {
        lemma_spaces_front(k, lines[i]);
    }
    assert forall|i: int| 0 <= i < lines.len() implies (#[trigger] lines[i].len() == 0) == (lines2[i].len() == 0) by {
        assert(lines2[i] == (if lines[i].len() == 0 { Seq::<char>::empty() } else { spaces(k) + lines[i] }));
    }
    lemma_min_lead_shift(lines, lines2, k as int);
    let b1 = base_lead(lines);
    let b2 = base_lead(lines2);
    let p1 = Seq::new(lines.len(), |i: int| rebase_line(lines[i], indent, b1, i == 0 && line0_bare));
    let p2 = Seq::new(lines2.len(), |i: int| rebase_line(lines2[i], indent, b2, i == 0 && line0_bare));
    assert forall|i: int| 0 <= i < lines.len() implies #[trigger] p2[i] == p1[i] by {
        if lines[i].len() > 0 {
            lemma_spaces_front(k, lines[i]);
            lemma_min_lead_le(lines, i);
        }
    }
    assert(p2 =~= p1);
}

/// Re-basing with a bare first line changes only that line: it becomes
/// the first line's text without its lead, and every other line is as
/// without the bare first line (the first line still counts toward the
/// smallest lead). Split at newlines, the two results line up line by line.
pub proof fn law_rebase_bare_first_line(lines: Seq<Seq<char>>, indent: Seq<char>)
    requires
        lines.len() >= 1,
        no_newline(indent),
        forall|i: int| 0 <= i < lines.len() ==> no_newline(#[trigger] lines[i]),
    ensures
        split_nl(rebased(lines, indent, true)).len() == split_nl(rebased(lines, indent, false)).len(),
        split_nl(rebased(lines, indent, true))[0] == trim_start(lines[0]),
        forall|i: int|
            1 <= i < split_nl(rebased(lines, indent, true)).len() ==> #[trigger] split_nl(
                rebased(lines, indent, true),
            )[i] == split_nl(rebased(lines, indent, false))[i],
{
    let b = base_lead(lines);
    let bare = true;
    let plain = false;
    let pt = Seq::new(lines.len(), |i: int| rebase_line(lines[i], indent, base_lead(lines), i == 0 && bare));
    let pf = Seq::new(lines.len(), |i: int| rebase_line(lines[i], indent, base_lead(lines), i == 0 && plain));
    assert(rebased(lines, indent, true) == join(pt, seq!['\n']));
    assert(rebased(lines, indent, false) == join(pf, seq!['\n']));
    assert forall|i: int| 0 <= i < pt.len() implies no_newline(#[trigger] pt[i]) by {
        lemma_rebase_line_no_newline(lines[i], indent, b, i == 0);
    }
    assert forall|i: int| 0 <= i < pf.len() implies no_newline(#[trigger] pf[i]) by {
        lemma_rebase_line_no_newline(lines[i], indent, b, false);
    }
    lemma_split_join(pt);
    lemma_split_join(pf);
    if lines[0].len() == 0 {
        assert(trim_start(lines[0]) =~= Seq::<char>::empty());
    }
}

proof fn lemma_rebase_line_no_newline(l: Seq<char>, indent: Seq<char>, base: nat, bare: bool)
    requires
        no_newline(l),
        no_newline(indent),
    ensures
        no_newline(rebase_line(l, indent, base, bare)),
{
    lemma_lead_ws_bound(l);
    let t = trim_start(l);
    assert forall|j: int| 0 <= j < t.len() implies t[j] != '\n' by {
        assert(t[j] == l[j + lead_ws(l)]);
    }
    if l.len() > 0 && !bare {
        let m = (lead_bytes(l) - base) as nat;
        let out = indent + spaces(m) + t;
        assert forall|j: int| 0 <= j < out.len() implies out[j] != '\n' by {
            if j < indent.len() {
            } else if j < indent.len() + m {
                assert(out[j] == spaces(m)[j - indent.len()]);
            } else {
                assert(out[j] == t[j - indent.len() - m]);
            }
        }
    }
}

/// Splitting at a newline-free tail extends the last piece.
proof fn lemma_split_nl_append(a: Seq<char>, b: Seq<char>)
    requires
        no_newline(b),
    ensures
        split_nl(a + b) == split_nl(a).update(
            split_nl(a).len() - 1,
            split_nl(a).last() + b,
        ),
    decreases b.len(),
{
    lemma_split_nl_len(a);
    if b.len() == 0 {
        assert(a + b =~= a);
        assert(split_nl(a).last() + b =~= split_nl(a).last());
        assert(split_nl(a).update(split_nl(a).len() - 1, split_nl(a).last()) =~= split_nl(a));
    } else {
        let b1 = b.drop_last();
        assert forall|j: int| 0 <= j < b1.len() implies b1[j] != '\n' by {
            assert(b1[j] == b[j]);
        }
        lemma_split_nl_append(a, b1);
        assert((a + b).drop_last() =~= a + b1);
        assert((a + b).last() == b.last());
        assert(b[b.len() - 1] != '\n');
        let s = split_nl(a);
        let p = split_nl(a + b1);
        assert(p.last() == s.last() + b1);
        assert(p.last().push(b.last()) =~= s.last() + b);
        assert(p.update(p.len() - 1, p.last().push(b.last())) =~= s.update(s.len() - 1, s.last() + b));
    }
}

/// Splitting at newlines undoes joining with newlines when no piece holds one.
proof fn lemma_split_join(parts: Seq<Seq<char>>)
    requires
        parts.len() >= 1,
        forall|i: int| 0 <= i < parts.len() ==> no_newline(#[trigger] parts[i]),
    ensures
        split_nl(join(parts, seq!['\n'])) == parts,
    decreases parts.len(),
{
    if parts.len() == 1 {
        lemma_split_nl_append(Seq::empty(), parts[0]);
        assert(Seq::<char>::empty() + parts[0] =~= parts[0]);
        assert(split_nl(Seq::<char>::empty()) =~= seq![Seq::<char>::empty()]);
        assert(Seq::<char>::empty() + parts[0] =~= parts[0]);
        assert(seq![Seq::<char>::empty()].update(0, Seq::<char>::empty() + parts[0]) =~= parts);
    } else {
        let q = parts.drop_last();
        assert forall|i: int| 0 <= i < q.len() implies no_newline(#[trigger] q[i]) by {
            assert(q[i] == parts[i]);
        }
        lemma_split_join(q);
        let jq = join(q, seq!['\n']);
        let p = parts.last();
        assert(no_newline(parts[parts.len() - 1]));
        assert(join(parts, seq!['\n']) == jq + seq!['\n'] + p);
        assert(jq + seq!['\n'] =~= jq.push('\n'));
        lemma_split_nl_append(jq.push('\n'), p);
        assert(jq.push('\n').drop_last() =~= jq);
        assert(split_nl(jq.push('\n')) == split_nl(jq).push(Seq::empty()));
        assert(Seq::<char>::empty() + p =~= p);
        assert(q.push(Seq::empty()).update(q.len() as int, Seq::<char>::empty() + p) =~= parts);
    }
}

/// Re-basing is idempotent: splitting a re-based block (indent of spaces,
/// lines without newlines or trailing whitespace) at its newlines and
/// re-basing it again under the same indent gives the same text.
pub proof fn law_rebase_twice_changes_nothing(lines: Seq<Seq<char>>, indent: Seq<char>)
    requires
        lines.len() >= 1,
        forall|k: int| 0 <= k < indent.len() ==> #[trigger] indent[k] == ' ',
        forall|i: int| 0 <= i < lines.len() ==> no_newline(#[trigger] lines[i]),
        forall|i: int| 0 <= i < lines.len() ==> #[trigger] trim_end(lines[i]) == lines[i],
    ensures
        rebased(split_nl(rebased(lines, indent, false)), indent, false) == rebased(lines, indent, false),
{
    let b = base_lead(lines);
    let plain = false;
    let parts = Seq::new(lines.len(), |i: int| rebase_line(lines[i], indent, base_lead(lines), i == 0 && plain));
    assert(indent =~= spaces(indent.len()));
    lemma_byte_len_spaces(indent.len());
    assert forall|k: int| 0 <= k < indent.len() implies is_ws(#[trigger] indent[k]) by {}
    assert(no_newline(indent));
    assert forall|i: int| 0 <= i < parts.len() implies no_newline(#[trigger] parts[i]) by {
        lemma_rebase_line_no_newline(lines[i], indent, b, false);
    }
    lemma_split_join(parts);
    assert(rebased(lines, indent, false) == join(parts, seq!['\n']));
    // Each non-empty line stays non-empty, and its lead grows by the
    // indent's width less the smallest lead.
    assert forall|i: int| 0 <= i < lines.len() implies (#[trigger] lines[i].len() == 0) == (parts[i].len() == 0) by {
        if lines[i].len() > 0 {
            lemma_nonblank(lines[i]);
            lemma_lead_ws_bound(lines[i]);
            assert(trim_start(lines[i]).len() > 0);
        }
    }
    assert forall|i: int| 0 <= i < lines.len() && lines[i].len() > 0 implies lead_bytes(#[trigger] parts[i]) == lead_bytes(lines[i]) + (indent.len() - b) by {
        law_rebase_keeps_relative_nesting(lines, indent, i);
    }
    lemma_min_lead_shift(lines, parts, indent.len() - b);
    let b2 = base_lead(parts);
    let again = Seq::new(parts.len(), |i: int| rebase_line(parts[i], indent, base_lead(parts), i == 0 && plain));
    assert(rebased(parts, indent, false) == join(again, seq!['\n']));
    assert forall|i: int| 0 <= i < parts.len() implies #[trigger] again[i] == parts[i] by {
        if lines[i].len() > 0 {
            law_rebase_keeps_relative_nesting(lines, indent, i);
            lemma_min_lead_le(lines, i);
        }
    }
    assert(again =~= parts);
}

/// A non-empty line without trailing whitespace is not all whitespace.
proof fn lemma_nonblank(l: Seq<char>)
    requires
        l.len() > 0,
        trim_end(l) == l,
    ensures
        lead_ws(l) < l.len(),
{
    lemma_lead_ws_bound(l);
    lemma_trail_ws_bound(l);
    if trail_ws(l) > 0 {
        assert(trim_end(l).len() < l.len());
    }
    assert(!is_ws(l.last()));
    if lead_ws(l) == l.len() {
        assert(is_ws(l[l.len() - 1]));
    }
}


/// `small` occurs in `big` as a contiguous run.
pub open spec fn occurs_in<T>(small: Seq<T>, big: Seq<T>) -> bool {
    exists|i: int| 0 <= i && i + small.len() <= big.len() && #[trigger] big.subrange(i, i + small.len()) == small
}

/// The root's parent is the value of the first header attribute named
/// `parent`, wherever it stands among the others; it is `()` only when no
/// attribute is named `parent`.
pub proof fn law_parent_is_first_attribute_named_parent(attrs: Seq<crate::ds_node::AttrV>)
    ensures
        forall|i: int|
            0 <= i < attrs.len() && attrs[i].name == Some("parent"@) && (forall|j: int|
                0 <= j < i ==> attrs[j].name != Some("parent"@)) ==> grammar::parent_of(attrs)
                == #[trigger] attrs[i].value,
        (forall|j: int| 0 <= j < attrs.len() ==> attrs[j].name != Some("parent"@))
            ==> grammar::parent_of(attrs) == seq![TokV::Group(Delim::Paren, Seq::empty())],
    decreases attrs.len(),
{
    if attrs.len() > 0 {
        let rest = attrs.drop_first();
        law_parent_is_first_attribute_named_parent(rest);
        assert forall|i: int|
            0 <= i < attrs.len() && attrs[i].name == Some("parent"@) && (forall|j: int|
                0 <= j < i ==> attrs[j].name != Some("parent"@)) implies grammar::parent_of(attrs)
                == #[trigger] attrs[i].value by {
            if i > 0 {
                assert(attrs[0].name != Some("parent"@));
                assert(rest[i - 1] == attrs[i]);
                assert forall|j: int| 0 <= j < i - 1 implies rest[j].name != Some("parent"@) by {
                    assert(rest[j] == attrs[j + 1]);
                }
            }
        }
        if forall|j: int| 0 <= j < attrs.len() ==> attrs[j].name != Some("parent"@) {
            assert(attrs[0].name != Some("parent"@));
            assert forall|j: int| 0 <= j < rest.len() implies rest[j].name != Some("parent"@) by {
                assert(rest[j] == attrs[j + 1]);
            }
        }
    }
}

/// The `DsRef` expansion for a type `Name` puts `#[derive(Debug)]` right
/// before `pub struct NameRef`, so the handle type can be printed.
pub proof fn law_ds_ref_handle_derives_debug(name: Seq<char>)
    ensures
        occurs_in(
            seq![
                TokV::Punct('#', false),
                TokV::Group(
                    Delim::Bracket,
                    seq![TokV::Ident("derive"@), TokV::Group(Delim::Paren, seq![TokV::Ident("Debug"@)])],
                ),
                TokV::Ident("pub"@),
                TokV::Ident("struct"@),
                TokV::Ident(crate::ds_ref::ref_name(name)),
            ],
            crate::ds_ref::ds_ref_tokens(name),
        ),
{
    let piece = seq![
        TokV::Punct('#', false),
        TokV::Group(
            Delim::Bracket,
            seq![TokV::Ident("derive"@), TokV::Group(Delim::Paren, seq![TokV::Ident("Debug"@)])],
        ),
        TokV::Ident("pub"@),
        TokV::Ident("struct"@),
        TokV::Ident(crate::ds_ref::ref_name(name)),
    ];
    let all = crate::ds_ref::ds_ref_tokens(name);
    let k = crate::ds_ref::into_ref_impl(name).len();
    assert(all.subrange(k as int, (k + piece.len()) as int) =~= piece);
}


proof fn lemma_emit_arms_prefix(arms: Seq<ArmV>, parent: Seq<char>, j: int)
    requires
        0 <= j <= arms.len(),
    ensures
        emit_arms(arms.take(j), parent).0.is_prefix_of(emit_arms(arms, parent).0),
    decreases arms.len(),
{
    if j == arms.len() {
        assert(arms.take(j) =~= arms);
    } else {
        let d = arms.drop_last();
        assert(arms.take(j) =~= d.take(j));
        lemma_emit_arms_prefix(d, parent, j);
        let a = emit_arms(d.take(j), parent).0;
        let b = emit_arms(d, parent).0;
        let c = emit_arms(arms, parent).0;
        assert(c.subrange(0, b.len() as int) =~= b);
        assert(c.subrange(0, a.len() as int) =~= b.subrange(0, a.len() as int));
    }
}

/// Each arm of a `match` walks its children: the default rune's code for a
/// `match` holds, for every arm, the arm's pattern line, then the code for
/// the arm's children (under the parent name current there), then the
/// arm's closing line.
pub proof fn law_match_arm_walks_children(t: TreeV, parent: Seq<char>, i: int)
    requires
        t.node is Match,
        0 <= i < t.node->arms.len(),
    ensures
        exists|q: Seq<char>|
            occurs_in(
                print_stmt("\"  {} => {{\""@, seq![seq![str_lit(text_of(t.node->arms[i].pat))]])
                    + #[trigger] emit_all(t.node->arms[i].children, q).0 + print_stmt(
                    "\"  }}\""@,
                    Seq::empty(),
                ),
                emit(t, parent).0,
            ),
{
    let arms = t.node->arms;
    let a = arms[i];
    let pre = emit_arms(arms.take(i), parent);
    let q = pre.1;
    let piece = print_stmt("\"  {} => {{\""@, seq![seq![str_lit(text_of(a.pat))]]) + emit_all(a.children, q).0
        + print_stmt("\"  }}\""@, Seq::empty());
    let upto = arms.take(i + 1);
    assert(upto.drop_last() =~= arms.take(i));
    assert(upto.last() == a);
    assert(emit_arms(upto, parent).0 == pre.0 + piece);
    lemma_emit_arms_prefix(arms, parent, i + 1);
    let head = print_stmt("\"match {} {{\""@, seq![seq![str_lit(text_of(t.node->scrutinee))]]);
    let all = emit(t, parent).0;
    let body = emit_arms(arms, parent).0;
    assert(all == head + body + close_stmt());
    let off = head.len() + pre.0.len();
    let pp = pre.0 + piece;
    assert(pp.is_prefix_of(body));
    assert(body.subrange(0, pp.len() as int) == pp);
    assert(body.subrange(pre.0.len() as int, (pre.0.len() + piece.len()) as int) =~= body.subrange(
        0,
        pp.len() as int,
    ).subrange(pre.0.len() as int, (pre.0.len() + piece.len()) as int));
    assert(pp.subrange(pre.0.len() as int, (pre.0.len() + piece.len()) as int) =~= piece);
    assert(body.subrange(pre.0.len() as int, (pre.0.len() + piece.len()) as int) =~= piece);
    assert(all.subrange(off as int, (off + piece.len()) as int) =~= piece);
    assert(occurs_in(piece, all));
}


/// A handler with arguments keeps them: the text written for an `on`
/// handler holds its event name followed directly by `(`, each argument
/// laid out as an expression, `, ` between them, and `)`.
pub proof fn law_handler_keeps_arguments(h: crate::ds_node::OnV, indent: Seq<char>)
    requires
        h.args.len() > 0,
    ensures
        occurs_in(
            h.name + "("@ + crate::text::join(
                Seq::new(h.args.len(), |k: int| crate::fmt_spec::fmt_expr(h.args[k], indent)),
                ", "@,
            ) + ")"@,
            crate::fmt_spec::on_text(h, indent),
        ),
{
    let piece = h.name + "("@ + crate::text::join(
        Seq::new(h.args.len(), |k: int| crate::fmt_spec::fmt_expr(h.args[k], indent)),
        ", "@,
    ) + ")"@;
    let lead = " on "@ + (match h.qualifier {
        Some(q) => q + "::"@,
        None => Seq::empty(),
    });
    let all = crate::fmt_spec::on_text(h, indent);
    assert(all.subrange(lead.len() as int, (lead.len() + piece.len()) as int) =~= piece);
}


proof fn lemma_toks_v_split(s: Seq<Tok>, a: int, b: int, c: int)
    requires
        0 <= a <= b <= c <= s.len(),
    ensures
        toks_v(s.subrange(a, c)) == toks_v(s.subrange(a, b)) + toks_v(s.subrange(b, c)),
{
    lemma_toks_v(s.subrange(a, c));
    lemma_toks_v(s.subrange(a, b));
    lemma_toks_v(s.subrange(b, c));
    assert(toks_v(s.subrange(a, c)) =~= toks_v(s.subrange(a, b)) + toks_v(s.subrange(b, c)));
}

/// One written attribute `name: value` with its optional `,`: the colon's
/// and the comma's spacing as written.
pub open spec fn xw_entry(a: XwAttrV, colon_joint: bool, comma: Option<bool>) -> Seq<TokV> {
    seq![TokV::Ident(a.name), TokV::Punct(':', colon_joint)] + a.value + match comma {
        Some(j) => seq![TokV::Punct(',', j)],
        None => Seq::empty(),
    }
}

/// The written attributes, one after another.
pub open spec fn xw_entries(r: Seq<XwAttrV>, colons: Seq<bool>, commas: Seq<Option<bool>>) -> Seq<TokV>
    decreases r.len(),
{
    if r.len() == 0 {
        Seq::empty()
    } else {
        xw_entry(r[0], colons[0], commas[0]) + xw_entries(r.drop_first(), colons.drop_first(), commas.drop_first())
    }
}

#[verifier::rlimit(60)]
proof fn lemma_xw_attrs_reassemble(s: Seq<Tok>, pos: int, acc: Seq<XwAttrV>, r: Seq<XwAttrV>) -> (w: (
    Seq<bool>,
    Seq<Option<bool>>,
))
    requires
        0 <= pos <= s.len(),
        xw_attrs(s, pos, acc) == Ok::<Seq<XwAttrV>, DsError>(r),
    ensures
        acc.len() <= r.len(),
        r.take(acc.len() as int) == acc,
        w.0.len() == r.len() - acc.len(),
        w.1.len() == r.len() - acc.len(),
        toks_v(s.subrange(pos, s.len() as int)) == xw_entries(r.skip(acc.len() as int), w.0, w.1),
    decreases s.len() - pos,
{
    if pos >= s.len() {
        assert(r == acc);
        assert(r.take(acc.len() as int) =~= acc);
        assert(r.skip(acc.len() as int) =~= Seq::<XwAttrV>::empty());
        assert(s.subrange(pos, s.len() as int) =~= Seq::<Tok>::empty());
        (Seq::empty(), Seq::empty())
    } else {
        let e = grammar::expr_end(s, pos + 2, true)->Ok_0;
        assert(pos + 2 < e <= s.len());
        let a = XwAttrV { name: ident_of(s[pos]), value: span_v(s, pos + 2, e) };
        let comma = at_punct(s, e, ',');
        let p = if comma { e + 1 } else { e };
        let w1 = lemma_xw_attrs_reassemble(s, p, acc.push(a), r);
        let cj = match s[pos + 1] {
            Tok::Punct { joint, .. } => joint,
            _ => false,
        };
        let cm: Option<bool> = if comma {
            match s[e] {
                Tok::Punct { joint, .. } => Some(joint),
                _ => None,
            }
        } else {
            None
        };
        let w = (seq![cj] + w1.0, seq![cm] + w1.1);
        assert(r.take((acc.len() + 1) as int) == acc.push(a));
        assert(r.take(acc.len() as int) =~= r.take((acc.len() + 1) as int).drop_last());
        assert(r[acc.len() as int] == r.take((acc.len() + 1) as int)[acc.len() as int]);
        let rest = r.skip(acc.len() as int);
        assert(rest[0] == a);
        assert(rest.drop_first() =~= r.skip((acc.len() + 1) as int));
        assert(w.0.drop_first() =~= w1.0);
        assert(w.1.drop_first() =~= w1.1);
        lemma_toks_v_split(s, pos, pos + 2, s.len() as int);
        lemma_toks_v_split(s, pos + 2, e, s.len() as int);
        lemma_toks_v_split(s, e, p, s.len() as int);
        lemma_toks_v(s.subrange(pos, pos + 2));
        assert(toks_v(s.subrange(pos, pos + 2)) =~= seq![TokV::Ident(a.name), TokV::Punct(':', cj)]);
        lemma_toks_v(s.subrange(e, p));
        if comma {
            assert(toks_v(s.subrange(e, p)) =~= seq![TokV::Punct(',', cm->0)]);
        } else {
            assert(toks_v(s.subrange(e, p)) =~= Seq::<TokV>::empty());
        }
        assert(xw_entries(rest, w.0, w.1) == xw_entry(a, cj, cm) + xw_entries(
            r.skip((acc.len() + 1) as int),
            w1.0,
            w1.1,
        ));
        assert(toks_v(s.subrange(pos, s.len() as int)) =~= xw_entry(a, cj, cm) + toks_v(
            s.subrange(p, s.len() as int),
        ));
        w
    }
}

/// Parsing an attribute list keeps every attribute written, in order:
/// the attributes parsed from `(n1: v1, ..., nk: vk)`, each written back as
/// `name: value` with its comma, give the list's tokens again. So the list
/// holds exactly as many attributes as entries were written, the `i`-th
/// with the `i`-th name and value.
pub proof fn law_xw_attributes_all_kept(s: Seq<Tok>, r: Seq<XwAttrV>)
    requires
        xw_attrs(s, 0, Seq::empty()) == Ok::<Seq<XwAttrV>, DsError>(r),
    ensures
        exists|colons: Seq<bool>, commas: Seq<Option<bool>>|
            colons.len() == r.len() && commas.len() == r.len() && toks_v(s) == #[trigger] xw_entries(
                r,
                colons,
                commas,
            ),
{
    let w = lemma_xw_attrs_reassemble(s, 0, Seq::empty(), r);
    assert(s.subrange(0, s.len() as int) =~= s);
    assert(r.skip(0) =~= r);
    assert(toks_v(s) == xw_entries(r, w.0, w.1));
}


/// The `DsRef` expansion for a type `Name` opens with `impl Name`, whose
/// body opens with `pub fn into_ref`, and holds `impl Clone for NameRef`,
/// `impl core::ops::Deref for NameRef` and `impl core::ops::DerefMut for
/// NameRef`.
pub proof fn law_ds_ref_expansion_items(name: Seq<char>)
    ensures
        seq![TokV::Ident("impl"@), TokV::Ident(name)].is_prefix_of(crate::ds_ref::ds_ref_tokens(name)),
        occurs_in(
            seq![
                TokV::Ident("impl"@),
                TokV::Ident("Clone"@),
                TokV::Ident("for"@),
                TokV::Ident(crate::ds_ref::ref_name(name)),
            ],
            crate::ds_ref::ds_ref_tokens(name),
        ),
        occurs_in(
            seq![
                TokV::Ident("impl"@),
                TokV::Ident("core"@),
                TokV::Punct(':', true),
                TokV::Punct(':', false),
                TokV::Ident("ops"@),
                TokV::Punct(':', true),
                TokV::Punct(':', false),
                TokV::Ident("Deref"@),
                TokV::Ident("for"@),
                TokV::Ident(crate::ds_ref::ref_name(name)),
            ],
            crate::ds_ref::ds_ref_tokens(name),
        ),
        occurs_in(
            seq![
                TokV::Ident("impl"@),
                TokV::Ident("core"@),
                TokV::Punct(':', true),
                TokV::Punct(':', false),
                TokV::Ident("ops"@),
                TokV::Punct(':', true),
                TokV::Punct(':', false),
                TokV::Ident("DerefMut"@),
                TokV::Ident("for"@),
                TokV::Ident(crate::ds_ref::ref_name(name)),
            ],
            crate::ds_ref::ds_ref_tokens(name),
        ),
        crate::ds_ref::ds_ref_tokens(name)[2] matches TokV::Group(Delim::Brace, body) && seq![
            TokV::Ident("pub"@),
            TokV::Ident("fn"@),
            TokV::Ident("into_ref"@),
        ].is_prefix_of(body),
{
    let all = crate::ds_ref::ds_ref_tokens(name);
    let a = crate::ds_ref::into_ref_impl(name);
    let b = crate::ds_ref::derive_debug();
    let c = crate::ds_ref::handle_struct(name);
    let d = crate::ds_ref::clone_impl(name);
    let e = crate::ds_ref::deref_impl(name);
    let f = crate::ds_ref::deref_mut_impl(name);
    let rn = crate::ds_ref::ref_name(name);
    assert(all.subrange(0, 2) =~= seq![TokV::Ident("impl"@), TokV::Ident(name)]);
    let o1 = a.len() + b.len() + c.len();
    let p1 = seq![TokV::Ident("impl"@), TokV::Ident("Clone"@), TokV::Ident("for"@), TokV::Ident(rn)];
    assert(all.subrange(o1 as int, (o1 + 4) as int) =~= p1);
    let o2 = o1 + d.len();
    let p2 = seq![
        TokV::Ident("impl"@),
        TokV::Ident("core"@),
        TokV::Punct(':', true),
        TokV::Punct(':', false),
        TokV::Ident("ops"@),
        TokV::Punct(':', true),
        TokV::Punct(':', false),
        TokV::Ident("Deref"@),
        TokV::Ident("for"@),
        TokV::Ident(rn),
    ];
    assert(all.subrange(o2 as int, (o2 + 10) as int) =~= p2);
    let o3 = o2 + e.len();
    let p3 = seq![
        TokV::Ident("impl"@),
        TokV::Ident("core"@),
        TokV::Punct(':', true),
        TokV::Punct(':', false),
        TokV::Ident("ops"@),
        TokV::Punct(':', true),
        TokV::Punct(':', false),
        TokV::Ident("DerefMut"@),
        TokV::Ident("for"@),
        TokV::Ident(rn),
    ];
    assert(all.subrange(o3 as int, (o3 + 10) as int) =~= p3);
    let inner = crate::ds_ref::into_ref_fn(name);
    assert(all[2] == TokV::Group(Delim::Brace, inner));
    let p4 = seq![TokV::Ident("pub"@), TokV::Ident("fn"@), TokV::Ident("into_ref"@)];
    // `pub fn into_ref` opens the body of `impl Name`.
    assert(inner.subrange(0, 3) =~= p4);
}


proof fn lemma_flat_occurs(parts: Seq<Seq<TokV>>, i: int)
    requires
        0 <= i < parts.len(),
    ensures
        crate::rune_spec::flat(parts.take(i)).len() + parts[i].len() <= crate::rune_spec::flat(parts).len(),
        crate::rune_spec::flat(parts).subrange(
            crate::rune_spec::flat(parts.take(i)).len() as int,
            (crate::rune_spec::flat(parts.take(i)).len() + parts[i].len()) as int,
        ) == parts[i],
    decreases parts.len(),
{
    let d = parts.drop_last();
    if i == parts.len() - 1 {
        assert(parts.take(i) =~= d);
        assert(crate::rune_spec::flat(parts) == crate::rune_spec::flat(d) + parts.last());
        assert(crate::rune_spec::flat(parts).subrange(
            crate::rune_spec::flat(d).len() as int,
            (crate::rune_spec::flat(d).len() + parts[i].len()) as int,
        ) =~= parts[i]);
    } else {
        lemma_flat_occurs(d, i);
        assert(d.take(i) =~= parts.take(i));
        assert(d[i] == parts[i]);
        let f = crate::rune_spec::flat(parts);
        let fd = crate::rune_spec::flat(d);
        assert(f == fd + parts.last());
        let a = crate::rune_spec::flat(parts.take(i)).len() as int;
        assert(f.subrange(a, a + parts[i].len()) =~= fd.subrange(a, a + parts[i].len()));
    }
}

/// Every attribute of a widget gets its setter line: the statements for a
/// widget hold `println!("{}.set_{}({:?})", "<widget>", "<attribute>",
/// <value>)` for each of its attributes.
pub proof fn law_xw_code_sets_every_attribute(w: crate::xwrapup::XwWidgetV, i: int)
    requires
        0 <= i < w.attrs.len(),
    ensures
        occurs_in(
            print_stmt(
                "\"{}.set_{}({:?})\""@,
                seq![seq![str_lit(w.name)], seq![str_lit(w.attrs[i].name)], w.attrs[i].value],
            ),
            crate::xwrapup::xw_code(w),
        ),
{
    let parts = Seq::new(w.attrs.len(), |k: int| crate::xwrapup::xw_setter(w.name, w.attrs[k]));
    lemma_flat_occurs(parts, i);
    let head = print_stmt("\"let {} = obj::new({})\""@, seq![seq![str_lit(w.name)], seq![str_lit(w.parent)]]);
    let all = crate::xwrapup::xw_code(w);
    let fl = crate::rune_spec::flat(parts);
    assert(all == head + fl + crate::xwrapup::xw_codes(w.children));
    let a = crate::rune_spec::flat(parts.take(i)).len() as int;
    let piece = parts[i];
    assert(all.subrange(head.len() + a, head.len() + a + piece.len()) =~= fl.subrange(a, a + piece.len()));
    assert(all.subrange(head.len() + a, head.len() + a + piece.len()) == piece);
}


/// How one written attribute was spaced and followed: the spacing of the
/// `:` after its name, of its `$`, and of the `,` and header `:` after it,
/// when there are any.
pub struct AttrSeps {
    pub colon: bool,
    pub dollar: bool,
    pub comma: Option<bool>,
    pub tail_colon: Option<bool>,
}

/// The punctuation token `c`, when present.
pub open spec fn opt_punct(c: char, j: Option<bool>) -> Seq<TokV> {
    match j {
        Some(joint) => seq![TokV::Punct(c, joint)],
        None => Seq::empty(),
    }
}

/// One attribute as written: `[name:] [$]value [,] [:]`.
pub open spec fn attr_entry(a: AttrV, w: AttrSeps) -> Seq<TokV> {
    (match a.name {
        Some(n) => seq![TokV::Ident(n), TokV::Punct(':', w.colon)],
        None => Seq::empty(),
    }) + (if a.reactive {
        seq![TokV::Punct('$', w.dollar)]
    } else {
        Seq::empty()
    }) + a.value + opt_punct(',', w.comma) + opt_punct(':', w.tail_colon)
}

/// The written attributes, one after another.
pub open spec fn attr_entries(r: Seq<AttrV>, ws: Seq<AttrSeps>) -> Seq<TokV>
    decreases r.len(),
{
    if r.len() == 0 {
        Seq::empty()
    } else {
        attr_entry(r[0], ws[0]) + attr_entries(r.drop_first(), ws.drop_first())
    }
}

/// The spacing of the punctuation token `t`.
pub open spec fn joint_of(t: Tok) -> bool {
    match t {
        Tok::Punct { joint, .. } => joint,
        _ => false,
    }
}

/// The position after one attribute at `s[pos]` and what follows it, as
/// `attr_list` steps.
pub open spec fn attr_next(s: Seq<Tok>, pos: int, header: bool) -> int {
    let p = grammar::attr(s, pos)->Ok_0.1;
    let p1 = if at_punct(s, p, ',') { p + 1 } else { p };
    if header && at_punct(s, p1, ':') { p1 + 1 } else { p1 }
}

proof fn lemma_reactive_bounds(s: Seq<Tok>, vstart: int)
    requires
        grammar::reactive_expr(s, vstart, true) is Ok,
    ensures
        vstart <= grammar::reactive_expr(s, vstart, true)->Ok_0.1,
        grammar::reactive_expr(s, vstart, true)->Ok_0.1 < grammar::reactive_expr(s, vstart, true)->Ok_0.2
            <= s.len(),
        grammar::reactive_expr(s, vstart, true)->Ok_0.0 ==> grammar::reactive_expr(s, vstart, true)->Ok_0.1
            == vstart + 1 && at_punct(s, vstart, '$'),
        !grammar::reactive_expr(s, vstart, true)->Ok_0.0 ==> grammar::reactive_expr(s, vstart, true)->Ok_0.1
            == vstart,
{
    if at_punct(s, vstart, '$') {
        if at_group(s, vstart + 1, Delim::Brace) {
        } else {
            let e = grammar::expr_end(s, vstart + 1, true)->Ok_0;
        }
    } else {
        let e = grammar::expr_end(s, vstart, true)->Ok_0;
    }
}

proof fn lemma_entry_tokens(
    s: Seq<Tok>,
    pos: int,
    vstart: int,
    va: int,
    vb: int,
    p1: int,
    p2: int,
    a: AttrV,
    w: AttrSeps,
)
    requires
        0 <= pos <= vstart <= va <= vb <= p1 <= p2 <= s.len(),
        a.name is Some ==> vstart == pos + 2 && tok_v(s[pos]) == TokV::Ident(a.name->0) && tok_v(s[pos + 1])
            == TokV::Punct(':', w.colon),
        a.name is None ==> vstart == pos,
        a.reactive ==> va == vstart + 1 && tok_v(s[vstart]) == TokV::Punct('$', w.dollar),
        !a.reactive ==> va == vstart,
        a.value == toks_v(s.subrange(va, vb)),
        w.comma is Some ==> p1 == vb + 1 && tok_v(s[vb]) == TokV::Punct(',', w.comma->0),
        w.comma is None ==> p1 == vb,
        w.tail_colon is Some ==> p2 == p1 + 1 && tok_v(s[p1]) == TokV::Punct(':', w.tail_colon->0),
        w.tail_colon is None ==> p2 == p1,
    ensures
        toks_v(s.subrange(pos, p2)) == attr_entry(a, w),
{
    lemma_toks_v_split(s, pos, vstart, p2);
    lemma_toks_v_split(s, vstart, va, p2);
    lemma_toks_v_split(s, va, vb, p2);
    lemma_toks_v_split(s, vb, p1, p2);
    lemma_toks_v(s.subrange(pos, vstart));
    lemma_toks_v(s.subrange(vstart, va));
    lemma_toks_v(s.subrange(vb, p1));
    lemma_toks_v(s.subrange(p1, p2));
    let name_part = match a.name {
        Some(n) => seq![TokV::Ident(n), TokV::Punct(':', w.colon)],
        None => Seq::<TokV>::empty(),
    };
    assert(toks_v(s.subrange(pos, vstart)) =~= name_part);
    let dollar_part = if a.reactive { seq![TokV::Punct('$', w.dollar)] } else { Seq::<TokV>::empty() };
    assert(toks_v(s.subrange(vstart, va)) =~= dollar_part);
    assert(toks_v(s.subrange(vb, p1)) =~= opt_punct(',', w.comma));
    assert(toks_v(s.subrange(p1, p2)) =~= opt_punct(':', w.tail_colon));
    assert(toks_v(s.subrange(pos, p2)) =~= attr_entry(a, w));
}

#[verifier::rlimit(40)]
proof fn lemma_attr_step(s: Seq<Tok>, pos: int, header: bool) -> (w: AttrSeps)
    requires
        0 <= pos < s.len(),
        grammar::attr(s, pos) is Ok,
    ensures
        pos < attr_next(s, pos, header) <= s.len(),
        toks_v(s.subrange(pos, attr_next(s, pos, header))) == attr_entry(grammar::attr(s, pos)->Ok_0.0, w),
{
    let (a, p) = grammar::attr(s, pos)->Ok_0;
    let named = grammar::named_attr_at(s, pos);
    let vstart = if named { pos + 2 } else { pos };
    let (rx, va, vb) = grammar::reactive_expr(s, vstart, true)->Ok_0;
    lemma_reactive_bounds(s, vstart);
    assert(p == vb);
    assert(a.reactive == rx);
    assert(a.value == span_v(s, va, vb));
    let comma = at_punct(s, p, ',');
    let p1 = if comma { p + 1 } else { p };
    let tcol = header && at_punct(s, p1, ':');
    let p2 = if tcol { p1 + 1 } else { p1 };
    let w = AttrSeps {
        colon: joint_of(s[pos + 1]),
        dollar: joint_of(s[vstart]),
        comma: if comma { Some(joint_of(s[p])) } else { None },
        tail_colon: if tcol { Some(joint_of(s[p1])) } else { None },
    };
    assert(p2 == attr_next(s, pos, header));
    lemma_entry_tokens(s, pos, vstart, va, vb, p1, p2, a, w);
    w
}

proof fn lemma_attr_list_reassemble(s: Seq<Tok>, pos: int, acc: Seq<AttrV>, header: bool, r: Seq<AttrV>) -> (ws: Seq<AttrSeps>)
    requires
        0 <= pos <= s.len(),
        grammar::attr_list(s, pos, acc, header) == Ok::<Seq<AttrV>, DsError>(r),
    ensures
        acc.len() <= r.len(),
        r.take(acc.len() as int) == acc,
        ws.len() == r.len() - acc.len(),
        toks_v(s.subrange(pos, s.len() as int)) == attr_entries(r.skip(acc.len() as int), ws),
    decreases s.len() - pos,
{
    if pos >= s.len() {
        assert(r.take(acc.len() as int) =~= acc);
        assert(r.skip(acc.len() as int) =~= Seq::<AttrV>::empty());
        assert(s.subrange(pos, s.len() as int) =~= Seq::<Tok>::empty());
        Seq::empty()
    } else {
        let a = grammar::attr(s, pos)->Ok_0.0;
        let p2 = attr_next(s, pos, header);
        let w = lemma_attr_step(s, pos, header);
        assert(grammar::attr_list(s, p2, acc.push(a), header) == Ok::<Seq<AttrV>, DsError>(r));
        let ws1 = lemma_attr_list_reassemble(s, p2, acc.push(a), header, r);
        let ws = seq![w] + ws1;
        assert(r.take((acc.len() + 1) as int) == acc.push(a));
        assert(r.take(acc.len() as int) =~= r.take((acc.len() + 1) as int).drop_last());
        assert(r[acc.len() as int] == r.take((acc.len() + 1) as int)[acc.len() as int]);
        let rest = r.skip(acc.len() as int);
        assert(rest[0] == a);
        assert(rest.drop_first() =~= r.skip((acc.len() + 1) as int));
        assert(ws.drop_first() =~= ws1);
        lemma_toks_v_split(s, pos, p2, s.len() as int);
        assert(attr_entries(rest, ws) == attr_entry(a, w) + attr_entries(r.skip((acc.len() + 1) as int), ws1));
        ws
    }
}

/// Parsing a list of attributes keeps every attribute written, in order:
/// the attributes parsed from a widget's `( ... )` or a header, each
/// written back with its name and `:` (when named), its `$` (when
/// reactive), its value and the `,` (and header `:`) after it, give the
/// list's tokens again.
pub proof fn law_attributes_all_kept(s: Seq<Tok>, header: bool, r: Seq<AttrV>)
    requires
        grammar::attr_list(s, 0, Seq::empty(), header) == Ok::<Seq<AttrV>, DsError>(r),
    ensures
        exists|ws: Seq<AttrSeps>| ws.len() == r.len() && toks_v(s) == #[trigger] attr_entries(r, ws),
{
    let ws = lemma_attr_list_reassemble(s, 0, Seq::empty(), header, r);
    assert(s.subrange(0, s.len() as int) =~= s);
    assert(r.skip(0) =~= r);
    assert(toks_v(s) == attr_entries(r, ws));
}


proof fn lemma_occurs_within<T>(x: Seq<T>, y: Seq<T>, a: Seq<T>, b: Seq<T>)
    requires
        occurs_in(x, y),
    ensures
        occurs_in(x, a + y + b),
{
    let k = choose|k: int| 0 <= k && k + x.len() <= y.len() && #[trigger] y.subrange(k, k + x.len()) == x;
    let z = a + y + b;
    assert(z.subrange(a.len() + k, a.len() + k + x.len()) =~= y.subrange(k, k + x.len()));
}

proof fn lemma_emit_all_prefix(ts: Seq<TreeV>, parent: Seq<char>, j: int)
    requires
        0 <= j <= ts.len(),
    ensures
        emit_all(ts.take(j), parent).0.is_prefix_of(emit_all(ts, parent).0),
    decreases ts.len(),
{
    if j == ts.len() {
        assert(ts.take(j) =~= ts);
    } else {
        let d = ts.drop_last();
        assert(ts.take(j) =~= d.take(j));
        lemma_emit_all_prefix(d, parent, j);
        let a = emit_all(d.take(j), parent).0;
        let b = emit_all(d, parent).0;
        let c = emit_all(ts, parent).0;
        assert(c.subrange(0, b.len() as int) =~= b);
        assert(c.subrange(0, a.len() as int) =~= b.subrange(0, a.len() as int));
    }
}

proof fn lemma_emit_all_occurs(ts: Seq<TreeV>, parent: Seq<char>, i: int)
    requires
        0 <= i < ts.len(),
    ensures
        occurs_in(emit(ts[i], emit_all(ts.take(i), parent).1).0, emit_all(ts, parent).0),
{
    let pre = emit_all(ts.take(i), parent);
    let piece = emit(ts[i], pre.1).0;
    let upto = ts.take(i + 1);
    assert(upto.drop_last() =~= ts.take(i));
    assert(upto.last() == ts[i]);
    assert(emit_all(upto, parent).0 == pre.0 + piece);
    lemma_emit_all_prefix(ts, parent, i + 1);
    let body = emit_all(ts, parent).0;
    let pp = pre.0 + piece;
    assert(body.subrange(0, pp.len() as int) == pp);
    assert(body.subrange(pre.0.len() as int, (pre.0.len() + piece.len()) as int) =~= pp.subrange(
        pre.0.len() as int,
        (pre.0.len() + piece.len()) as int,
    ));
    assert(pp.subrange(pre.0.len() as int, (pre.0.len() + piece.len()) as int) =~= piece);
}

/// Every child is walked: the default rune's code for a node holds the
/// code for each of its children (under the parent name current there),
/// for every kind of node that has children of its own (a `match` walks
/// its arms instead, a code block has none).
pub proof fn law_children_are_walked(t: TreeV, parent: Seq<char>, i: int)
    requires
        !(t.node is Match),
        !(t.node is CodeBlock),
        0 <= i < t.children.len(),
    ensures
        exists|q: Seq<char>| occurs_in(#[trigger] emit(t.children[i], q).0, emit(t, parent).0),
{
    let kids = t.children;
    let all = emit(t, parent).0;
    match t.node {
        NodeV::Root(e) => {
            let q0 = "parent"@;
            lemma_emit_all_occurs(kids, q0, i);
            lemma_occurs_within(emit(kids[i], emit_all(kids.take(i), q0).1).0, emit_all(kids, q0).0, root_stmt(e), Seq::empty());
            assert(all == root_stmt(e) + emit_all(kids, q0).0 + Seq::<TokV>::empty());
        },
        NodeV::Widget(w) => {
            lemma_emit_all_occurs(kids, w.name, i);
            let head = crate::rune_spec::widget_stmts(w.name, w.attrs, w.on_handlers, parent);
            lemma_occurs_within(emit(kids[i], emit_all(kids.take(i), w.name).1).0, emit_all(kids, w.name).0, head, Seq::empty());
            assert(all == head + emit_all(kids, w.name).0 + Seq::<TokV>::empty());
        },
        NodeV::If { condition, .. } => {
            lemma_emit_all_occurs(kids, parent, i);
            let head = print_stmt("\"if {} {{\""@, seq![seq![str_lit(text_of(condition))]]);
            let (c, q) = emit_all(kids, parent);
            let tail = match t.else_branch {
                Some(b) => close_stmt() + emit(*b, q).0,
                None => close_stmt(),
            };
            lemma_occurs_within(emit(kids[i], emit_all(kids.take(i), parent).1).0, c, head, tail);
            assert(all =~= head + c + tail);
        },
        NodeV::Else => {
            lemma_emit_all_occurs(kids, parent, i);
            lemma_occurs_within(emit(kids[i], emit_all(kids.take(i), parent).1).0, emit_all(kids, parent).0, Seq::empty(), Seq::empty());
            assert(all =~= Seq::<TokV>::empty() + emit_all(kids, parent).0 + Seq::<TokV>::empty());
        },
        NodeV::Iter { iterable, variable, .. } => {
            lemma_emit_all_occurs(kids, parent, i);
            let head = print_stmt(
                "\"for {} in {} {{\""@,
                seq![seq![str_lit(variable)], seq![str_lit(text_of(iterable))]],
            );
            lemma_occurs_within(emit(kids[i], emit_all(kids.take(i), parent).1).0, emit_all(kids, parent).0, head, close_stmt());
            assert(all == head + emit_all(kids, parent).0 + close_stmt());
        },
        NodeV::Niche { name, .. } => {
            lemma_emit_all_occurs(kids, parent, i);
            let head = print_stmt("\"@{} {{\""@, seq![seq![str_lit(name)]]);
            lemma_occurs_within(emit(kids[i], emit_all(kids.take(i), parent).1).0, emit_all(kids, parent).0, head, close_stmt());
            assert(all == head + emit_all(kids, parent).0 + close_stmt());
        },
        _ => {},
    }
}

/// The `elif` / `else` tail of an `if` is walked: the default rune's code
/// for an `if` holds the code for its else branch.
pub proof fn law_else_branch_is_walked(t: TreeV, parent: Seq<char>)
    requires
        t.node is If,
        t.else_branch is Some,
    ensures
        exists|q: Seq<char>| occurs_in(#[trigger] emit(*t.else_branch->0, q).0, emit(t, parent).0),
{
    let b = *t.else_branch->0;
    let condition = t.node->condition;
    let head = print_stmt("\"if {} {{\""@, seq![seq![str_lit(text_of(condition))]]);
    let (c, q) = emit_all(t.children, parent);
    let all = emit(t, parent).0;
    assert(all == head + c + close_stmt() + emit(b, q).0);
    let x = emit(b, q).0;
    let pre = head + c + close_stmt();
    assert(all.subrange(pre.len() as int, (pre.len() + x.len()) as int) =~= x);
    assert(occurs_in(x, all));
}


proof fn lemma_children_text_prefix(ts: Seq<TreeV>, ind: Seq<char>, j: int)
    requires
        0 <= j <= ts.len(),
    ensures
        crate::fmt_spec::children_text(ts.take(j), ind).is_prefix_of(crate::fmt_spec::children_text(ts, ind)),
    decreases ts.len(),
{
    if j == ts.len() {
        assert(ts.take(j) =~= ts);
    } else {
        let d = ts.drop_last();
        assert(ts.take(j) =~= d.take(j));
        lemma_children_text_prefix(d, ind, j);
        let a = crate::fmt_spec::children_text(d.take(j), ind);
        let b = crate::fmt_spec::children_text(d, ind);
        let c = crate::fmt_spec::children_text(ts, ind);
        assert(c.subrange(0, b.len() as int) =~= b);
        assert(c.subrange(0, a.len() as int) =~= b.subrange(0, a.len() as int));
    }
}

proof fn lemma_children_text_occurs(ts: Seq<TreeV>, ind: Seq<char>, i: int)
    requires
        0 <= i < ts.len(),
    ensures
        occurs_in(tree_text(ts[i], ind), crate::fmt_spec::children_text(ts, ind)),
{
    let pre = crate::fmt_spec::children_text(ts.take(i), ind);
    let piece = tree_text(ts[i], ind);
    let upto = ts.take(i + 1);
    assert(upto.drop_last() =~= ts.take(i));
    assert(upto.last() == ts[i]);
    assert(crate::fmt_spec::children_text(upto, ind) == pre + piece);
    lemma_children_text_prefix(ts, ind, i + 1);
    let body = crate::fmt_spec::children_text(ts, ind);
    let pp = pre + piece;
    assert(body.subrange(0, pp.len() as int) == pp);
    assert(body.subrange(pre.len() as int, (pre.len() + piece.len()) as int) =~= pp.subrange(
        pre.len() as int,
        (pre.len() + piece.len()) as int,
    ));
    assert(pp.subrange(pre.len() as int, (pre.len() + piece.len()) as int) =~= piece);
}


#[verifier::rlimit(60)]
proof fn lemma_format_child_widget(t: TreeV, indent: Seq<char>, i: int)
    requires
        t.node is Widget,
        0 <= i < t.children.len(),
    ensures
        occurs_in(tree_text(t.children[i], deeper(indent)), tree_text(t, indent)),
{
    let kids = t.children;
    let ci = deeper(indent);
    let all = tree_text(t, indent);
    match t.node {
        NodeV::Widget(w) => {
            lemma_children_text_occurs(kids, ci, i);
            let ct = crate::fmt_spec::children_text(kids, ci);
            let pre = widget_head(w, indent) + (if w.on_handlers.len() > 0 { "\n"@ + indent } else { " "@ }) + "{\n"@;
            let post = indent + "}"@ + "\n"@;
            lemma_occurs_within(tree_text(kids[i], ci), ct, pre, post);
            assert(all =~= pre + ct + post);
        },
        _ => {},
    }
}

#[verifier::rlimit(60)]
proof fn lemma_format_child_if(t: TreeV, indent: Seq<char>, i: int)
    requires
        t.node is If,
        0 <= i < t.children.len(),
    ensures
        occurs_in(tree_text(t.children[i], deeper(indent)), tree_text(t, indent)),
{
    let kids = t.children;
    let ci = deeper(indent);
    let all = tree_text(t, indent);
    match t.node {
        NodeV::If { condition, reactive } => {
            lemma_children_text_occurs(kids, ci, i);
            let ct = crate::fmt_spec::children_text(kids, ci);
            let pre = indent + "if "@ + sigil(reactive) + crate::fmt_spec::fmt_expr(condition, indent) + " "@ + "{\n"@;
            let post = indent + "}"@ + else_text(t.else_branch, indent) + "\n"@;
            lemma_occurs_within(tree_text(kids[i], ci), ct, pre, post);
            assert(all =~= pre + ct + post);
        },
        _ => {},
    }
}

#[verifier::rlimit(60)]
proof fn lemma_format_child_iter(t: TreeV, indent: Seq<char>, i: int)
    requires
        t.node is Iter,
        0 <= i < t.children.len(),
    ensures
        occurs_in(tree_text(t.children[i], deeper(indent)), tree_text(t, indent)),
{
    let kids = t.children;
    let ci = deeper(indent);
    let all = tree_text(t, indent);
    match t.node {
        NodeV::Iter { iterable, variable, reactive, key } => {
            lemma_children_text_occurs(kids, ci, i);
            let ct = crate::fmt_spec::children_text(kids, ci);
            let pre = indent + "walk "@ + sigil(reactive) + crate::fmt_spec::fmt_expr(iterable, indent) + " with "@
                + variable + (match key {
                Some(kk) => " by "@ + crate::fmt_spec::fmt_expr(kk, indent),
                None => Seq::empty(),
            }) + " "@ + "{\n"@;
            let post = indent + "}"@ + "\n"@;
            lemma_occurs_within(tree_text(kids[i], ci), ct, pre, post);
            assert(all =~= pre + ct + post);
        },
        _ => {},
    }
}

#[verifier::rlimit(60)]
proof fn lemma_format_child_niche(t: TreeV, indent: Seq<char>, i: int)
    requires
        t.node is Niche,
        0 <= i < t.children.len(),
    ensures
        occurs_in(tree_text(t.children[i], deeper(indent)), tree_text(t, indent)),
{
    let kids = t.children;
    let ci = deeper(indent);
    let all = tree_text(t, indent);
    match t.node {
        NodeV::Niche { name, is_declaration } => {
            lemma_children_text_occurs(kids, ci, i);
            let ct = crate::fmt_spec::children_text(kids, ci);
            let pre = indent + (if is_declaration { "@@"@ } else { "@"@ }) + name + " "@ + "{\n"@;
            let post = indent + "}"@ + "\n"@;
            lemma_occurs_within(tree_text(kids[i], ci), ct, pre, post);
            assert(all =~= pre + ct + post);
        },
        _ => {},
    }
}

/// Formatting keeps every child: the text written for a node holds the
/// text of each of its children (laid out at the children's indent), for
/// every kind of node that has children of its own.
pub proof fn law_format_keeps_children(t: TreeV, indent: Seq<char>, i: int)
    requires
        !(t.node is Match),
        !(t.node is CodeBlock),
        0 <= i < t.children.len(),
    ensures
        exists|ind: Seq<char>| occurs_in(#[trigger] tree_text(t.children[i], ind), tree_text(t, indent)),
{
    let kids = t.children;
    let ci = deeper(indent);
    let all = tree_text(t, indent);
    match t.node {
        NodeV::Root(_) => {
            lemma_children_text_occurs(kids, indent, i);
            lemma_occurs_within(tree_text(kids[i], indent), crate::fmt_spec::children_text(kids, indent), Seq::empty(), Seq::empty());
            assert(all =~= Seq::<char>::empty() + crate::fmt_spec::children_text(kids, indent) + Seq::<char>::empty());
        },
        NodeV::Else => {
            lemma_children_text_occurs(kids, ci, i);
            lemma_occurs_within(tree_text(kids[i], ci), crate::fmt_spec::children_text(kids, ci), Seq::empty(), Seq::empty());
            assert(all =~= Seq::<char>::empty() + crate::fmt_spec::children_text(kids, ci) + Seq::<char>::empty());
        },
        NodeV::Widget(_) => {
            lemma_format_child_widget(t, indent, i);
        },
        NodeV::If { .. } => {
            lemma_format_child_if(t, indent, i);
        },
        NodeV::Iter { .. } => {
            lemma_format_child_iter(t, indent, i);
        },
        NodeV::Niche { .. } => {
            lemma_format_child_niche(t, indent, i);
        },
        _ => {},
    }
}


proof fn lemma_join_prefix(parts: Seq<Seq<char>>, sep: Seq<char>, j: int)
    requires
        1 <= j <= parts.len(),
    ensures
        crate::text::join(parts.take(j), sep).is_prefix_of(crate::text::join(parts, sep)),
    decreases parts.len(),
{
    if j == parts.len() {
        assert(parts.take(j) =~= parts);
    } else {
        let d = parts.drop_last();
        assert(parts.take(j) =~= d.take(j));
        lemma_join_prefix(d, sep, j);
        let a = crate::text::join(d.take(j), sep);
        let b = crate::text::join(d, sep);
        let c = crate::text::join(parts, sep);
        assert(c == b + sep + parts.last());
        assert(c.subrange(0, b.len() as int) =~= b);
        assert(c.subrange(0, a.len() as int) =~= b.subrange(0, a.len() as int));
    }
}

proof fn lemma_join_occurs(parts: Seq<Seq<char>>, sep: Seq<char>, i: int)
    requires
        0 <= i < parts.len(),
    ensures
        occurs_in(parts[i], crate::text::join(parts, sep)),
{
    let upto = parts.take(i + 1);
    assert(upto.drop_last() =~= parts.take(i));
    assert(upto.last() == parts[i]);
    let pre = if i == 0 { Seq::<char>::empty() } else { crate::text::join(parts.take(i), sep) + sep };
    let ju = crate::text::join(upto, sep);
    if i == 0 {
        assert(ju == parts[0]);
    }
    assert(ju =~= pre + parts[i]);
    lemma_join_prefix(parts, sep, i + 1);
    let body = crate::text::join(parts, sep);
    assert(body.subrange(0, ju.len() as int) == ju);
    assert(body.subrange(pre.len() as int, (pre.len() + parts[i].len()) as int) =~= ju.subrange(
        pre.len() as int,
        (pre.len() + parts[i].len()) as int,
    ));
    assert(ju.subrange(pre.len() as int, (pre.len() + parts[i].len()) as int) =~= parts[i]);
}

proof fn lemma_concat_prefix(parts: Seq<Seq<char>>, j: int)
    requires
        0 <= j <= parts.len(),
    ensures
        crate::fmt_spec::concat(parts.take(j)).is_prefix_of(crate::fmt_spec::concat(parts)),
    decreases parts.len(),
{
    if j == parts.len() {
        assert(parts.take(j) =~= parts);
    } else {
        let d = parts.drop_last();
        assert(parts.take(j) =~= d.take(j));
        lemma_concat_prefix(d, j);
        let a = crate::fmt_spec::concat(d.take(j));
        let b = crate::fmt_spec::concat(d);
        let c = crate::fmt_spec::concat(parts);
        assert(c.subrange(0, b.len() as int) =~= b);
        assert(c.subrange(0, a.len() as int) =~= b.subrange(0, a.len() as int));
    }
}

proof fn lemma_concat_occurs(parts: Seq<Seq<char>>, i: int)
    requires
        0 <= i < parts.len(),
    ensures
        occurs_in(parts[i], crate::fmt_spec::concat(parts)),
{
    let upto = parts.take(i + 1);
    assert(upto.drop_last() =~= parts.take(i));
    assert(upto.last() == parts[i]);
    let pre = crate::fmt_spec::concat(parts.take(i));
    let cu = crate::fmt_spec::concat(upto);
    assert(cu == pre + parts[i]);
    lemma_concat_prefix(parts, i + 1);
    let body = crate::fmt_spec::concat(parts);
    assert(body.subrange(0, cu.len() as int) == cu);
    assert(body.subrange(pre.len() as int, (pre.len() + parts[i].len()) as int) =~= cu.subrange(
        pre.len() as int,
        (pre.len() + parts[i].len()) as int,
    ));
    assert(cu.subrange(pre.len() as int, (pre.len() + parts[i].len()) as int) =~= parts[i]);
}

proof fn lemma_occurs_self<T>(x: Seq<T>)
    ensures
        occurs_in(x, x),
{
    assert(x.subrange(0, (0 + x.len()) as int) =~= x);
}

proof fn lemma_occurs_trans<T>(x: Seq<T>, y: Seq<T>, z: Seq<T>)
    requires
        occurs_in(x, y),
        occurs_in(y, z),
    ensures
        occurs_in(x, z),
{
    let k = choose|k: int| 0 <= k && k + x.len() <= y.len() && #[trigger] y.subrange(k, k + x.len()) == x;
    let m = choose|m: int| 0 <= m && m + y.len() <= z.len() && #[trigger] z.subrange(m, m + y.len()) == y;
    assert(z.subrange(m + k, m + k + x.len()) =~= y.subrange(k, k + x.len()));
}

/// Formatting keeps every attribute of a widget: the attribute list's text
/// holds, for each attribute, its name and `: ` (when it has one), its `$`
/// (when reactive) and its value laid out as an expression.
pub proof fn law_format_keeps_attributes(attrs: Seq<AttrV>, indent: Seq<char>, name_len: nat, i: int)
    requires
        0 <= i < attrs.len(),
    ensures
        occurs_in(
            (match attrs[i].name {
                Some(n) => n + ": "@,
                None => Seq::empty(),
            }) + sigil(attrs[i].reactive) + crate::fmt_spec::fmt_expr(attrs[i].value, deeper(indent)),
            crate::fmt_spec::attrs_text(attrs, indent, name_len),
        ),
{
    let ai = deeper(indent);
    let strs = crate::fmt_spec::attr_texts(attrs, ai);
    let x = (match attrs[i].name {
        Some(n) => n + ": "@,
        None => Seq::empty(),
    }) + sigil(attrs[i].reactive) + crate::fmt_spec::fmt_expr(attrs[i].value, ai);
    assert(strs[i] =~= x);
    let all = crate::fmt_spec::attrs_text(attrs, indent, name_len);
    let single = crate::text::join(strs, ", "@);
    let total = byte_len(indent) + name_len + 1 + byte_len(single) + 1 + 3;
    if crate::fmt_spec::was_multiline(attrs) || total > crate::fmt_spec::MAX_LINE_WIDTH {
        let lines = Seq::new(
            strs.len(),
            |k: int| ai + strs[k] + (if k + 1 < strs.len() { ","@ } else { Seq::empty() }) + "\n"@,
        );
        lemma_concat_occurs(lines, i);
        let tail = (if i + 1 < strs.len() { ","@ } else { Seq::<char>::empty() }) + "\n"@;
        assert(lines[i] =~= ai + strs[i] + tail);
        lemma_occurs_self(strs[i]);
        lemma_occurs_within(strs[i], strs[i], ai, tail);
        lemma_occurs_trans(strs[i], lines[i], crate::fmt_spec::concat(lines));
        let body = crate::fmt_spec::attr_lines(strs, ai);
        assert(body == crate::fmt_spec::concat(lines));
        lemma_occurs_within(strs[i], body, "(\n"@, indent + ")"@);
        assert(all =~= "(\n"@ + body + (indent + ")"@));
    } else {
        lemma_join_occurs(strs, ", "@, i);
        lemma_occurs_within(strs[i], single, "("@, ")"@);
        assert(all =~= "("@ + single + ")"@);
    }
}


/// Formatting keeps every handler of a widget, and so every handler's
/// arguments: the text written for a widget holds each handler's text, and
/// for a handler with arguments its event name followed by `(`, its
/// arguments laid out as expressions with `, ` between them, and `)`.
pub proof fn law_format_keeps_handlers(t: TreeV, indent: Seq<char>, i: int)
    requires
        t.node is Widget,
        0 <= i < t.node->Widget_0.on_handlers.len(),
    ensures
        occurs_in(crate::fmt_spec::on_text(t.node->Widget_0.on_handlers[i], indent), tree_text(t, indent)),
        t.node->Widget_0.on_handlers[i].args.len() > 0 ==> occurs_in(
            t.node->Widget_0.on_handlers[i].name + "("@ + crate::text::join(
                Seq::new(
                    t.node->Widget_0.on_handlers[i].args.len(),
                    |k: int| crate::fmt_spec::fmt_expr(t.node->Widget_0.on_handlers[i].args[k], indent),
                ),
                ", "@,
            ) + ")"@,
            tree_text(t, indent),
        ),
{
    let w = t.node->Widget_0;
    let hs = w.on_handlers;
    let h = hs[i];
    let parts = Seq::new(hs.len(), |k: int| crate::fmt_spec::on_text(hs[k], indent));
    lemma_concat_occurs(parts, i);
    let ons = crate::fmt_spec::ons_text(hs, indent);
    assert(ons == crate::fmt_spec::concat(parts));
    let pre = indent + w.name + " "@ + crate::fmt_spec::attrs_text(w.attrs, indent, byte_len(w.name))
        + crate::fmt_spec::enchants_text(w.enchants, indent);
    let head = widget_head(w, indent);
    assert(head == pre + ons);
    let all = tree_text(t, indent);
    let rest = if t.children.len() == 0 {
        "\n"@
    } else if w.on_handlers.len() > 0 {
        "\n"@ + indent + crate::fmt_spec::braced(crate::fmt_spec::children_text(t.children, deeper(indent)), indent) + "\n"@
    } else {
        " "@ + crate::fmt_spec::braced(crate::fmt_spec::children_text(t.children, deeper(indent)), indent) + "\n"@
    };
    assert(all == pre + ons + rest);
    lemma_occurs_self(ons);
    lemma_occurs_within(ons, ons, pre, rest);
    lemma_occurs_trans(parts[i], ons, all);
    if h.args.len() > 0 {
        law_handler_keeps_arguments(h, indent);
        lemma_occurs_trans(
            h.name + "("@ + crate::text::join(
                Seq::new(h.args.len(), |k: int| crate::fmt_spec::fmt_expr(h.args[k], indent)),
                ", "@,
            ) + ")"@,
            parts[i],
            all,
        );
    }
}


proof fn lemma_arms_text_prefix(arms: Seq<ArmV>, ind: Seq<char>, j: int)
    requires
        0 <= j <= arms.len(),
    ensures
        crate::fmt_spec::arms_text(arms.take(j), ind).is_prefix_of(crate::fmt_spec::arms_text(arms, ind)),
    decreases arms.len(),
{
    if j == arms.len() {
        assert(arms.take(j) =~= arms);
    } else {
        let d = arms.drop_last();
        assert(arms.take(j) =~= d.take(j));
        lemma_arms_text_prefix(d, ind, j);
        let a = crate::fmt_spec::arms_text(d.take(j), ind);
        let b = crate::fmt_spec::arms_text(d, ind);
        let c = crate::fmt_spec::arms_text(arms, ind);
        assert(c.subrange(0, b.len() as int) =~= b);
        assert(c.subrange(0, a.len() as int) =~= b.subrange(0, a.len() as int));
    }
}

/// Formatting keeps the children of every `match` arm: the text written for
/// a `match` holds the text of each child of each arm.
pub proof fn law_format_keeps_arm_children(t: TreeV, indent: Seq<char>, i: int, j: int)
    requires
        t.node is Match,
        0 <= i < t.node->arms.len(),
        0 <= j < t.node->arms[i].children.len(),
    ensures
        exists|ind: Seq<char>| occurs_in(#[trigger] tree_text(t.node->arms[i].children[j], ind), tree_text(t, indent)),
{
    let arms = t.node->arms;
    let a = arms[i];
    let ci = deeper(indent);
    let cci = deeper(ci);
    let x = tree_text(a.children[j], cci);
    let ct = crate::fmt_spec::children_text(a.children, cci);
    lemma_children_text_occurs(a.children, cci, j);
    let arm_pre = ci + text_of(a.pat) + " => "@ + "{\n"@;
    let arm_post = ci + "}"@ + "\n"@;
    lemma_occurs_within(x, ct, arm_pre, arm_post);
    let piece = ci + text_of(a.pat) + " => "@ + crate::fmt_spec::braced(ct, ci) + "\n"@;
    assert(piece =~= arm_pre + ct + arm_post);
    let upto = arms.take(i + 1);
    assert(upto.drop_last() =~= arms.take(i));
    assert(upto.last() == a);
    let pre = crate::fmt_spec::arms_text(arms.take(i), ci);
    let au = crate::fmt_spec::arms_text(upto, ci);
    assert(au =~= pre + piece);
    lemma_arms_text_prefix(arms, ci, i + 1);
    let body = crate::fmt_spec::arms_text(arms, ci);
    assert(body.subrange(0, au.len() as int) == au);
    assert(body.subrange(pre.len() as int, (pre.len() + piece.len()) as int) =~= au.subrange(
        pre.len() as int,
        (pre.len() + piece.len()) as int,
    ));
    assert(au.subrange(pre.len() as int, (pre.len() + piece.len()) as int) =~= piece);
    assert(occurs_in(piece, body));
    let all = tree_text(t, indent);
    let m_pre = indent + "match "@ + sigil(t.node->Match_reactive) + crate::fmt_spec::fmt_expr(t.node->scrutinee, indent)
        + " "@ + "{\n"@;
    let m_post = indent + "}"@ + "\n"@;
    assert(all =~= m_pre + body + m_post);
    lemma_occurs_self(body);
    lemma_occurs_within(body, body, m_pre, m_post);
    lemma_occurs_trans(piece, body, all);
    lemma_occurs_trans(x, piece, all);
}

proof fn lemma_xw_codes_prefix(ws: Seq<crate::xwrapup::XwWidgetV>, j: int)
    requires
        0 <= j <= ws.len(),
    ensures
        crate::xwrapup::xw_codes(ws.take(j)).is_prefix_of(crate::xwrapup::xw_codes(ws)),
    decreases ws.len(),
{
    if j == ws.len() {
        assert(ws.take(j) =~= ws);
    } else {
        let d = ws.drop_last();
        assert(ws.take(j) =~= d.take(j));
        lemma_xw_codes_prefix(d, j);
        let a = crate::xwrapup::xw_codes(d.take(j));
        let b = crate::xwrapup::xw_codes(d);
        let c = crate::xwrapup::xw_codes(ws);
        assert(c.subrange(0, b.len() as int) =~= b);
        assert(c.subrange(0, a.len() as int) =~= b.subrange(0, a.len() as int));
    }
}

/// Every child widget gets its statements: the statements generated for a
/// widget hold those of each of its children.
pub proof fn law_xw_code_walks_children(w: crate::xwrapup::XwWidgetV, i: int)
    requires
        0 <= i < w.children.len(),
    ensures
        occurs_in(crate::xwrapup::xw_code(w.children[i]), crate::xwrapup::xw_code(w)),
{
    let ws = w.children;
    let x = crate::xwrapup::xw_code(ws[i]);
    let upto = ws.take(i + 1);
    assert(upto.drop_last() =~= ws.take(i));
    assert(upto.last() == ws[i]);
    let pre = crate::xwrapup::xw_codes(ws.take(i));
    let cu = crate::xwrapup::xw_codes(upto);
    assert(cu == pre + x);
    lemma_xw_codes_prefix(ws, i + 1);
    let body = crate::xwrapup::xw_codes(ws);
    assert(body.subrange(0, cu.len() as int) == cu);
    assert(body.subrange(pre.len() as int, (pre.len() + x.len()) as int) =~= cu.subrange(
        pre.len() as int,
        (pre.len() + x.len()) as int,
    ));
    assert(cu.subrange(pre.len() as int, (pre.len() + x.len()) as int) =~= x);
    assert(occurs_in(x, body));
    let head = print_stmt("\"let {} = obj::new({})\""@, seq![seq![str_lit(w.name)], seq![str_lit(w.parent)]])
        + crate::rune_spec::flat(Seq::new(w.attrs.len(), |k: int| crate::xwrapup::xw_setter(w.name, w.attrs[k])));
    let all = crate::xwrapup::xw_code(w);
    assert(all =~= head + body + Seq::<TokV>::empty());
    lemma_occurs_within(x, body, head, Seq::empty());
}

} // verus!
