//! Line-level layout used by the formatter: re-indenting a block of lines
//! while keeping their relative nesting, and cutting a pretty-printed
//! wrapper function down to its body.

use vstd::prelude::*;
use crate::text::{byte_len, char_width, chars_of, is_ws, is_whitespace, join, lead_bytes, lead_ws, lemma_byte_len_push, lemma_lead_ws_bound, push_all, spaces, string_of, trim_start};

verus! {

broadcast use vstd::seq_lib::group_seq_properties;

/// The smallest leading-whitespace width (in bytes) over the non-empty lines.
pub open spec fn min_lead(lines: Seq<Seq<char>>) -> Option<nat>
    decreases lines.len(),
{
    if lines.len() == 0 {
        None
    } else {
        let rest = min_lead(lines.drop_last());
        let l = lines.last();
        if l.len() == 0 {
            rest
        } else {
            match rest {
                None => Some(lead_bytes(l)),
                Some(m) => Some(if m <= lead_bytes(l) { m } else { lead_bytes(l) }),
            }
        }
    }
}

/// The common base indent: `min_lead`, or 0 when every line is empty.
pub open spec fn base_lead(lines: Seq<Seq<char>>) -> nat {
    match min_lead(lines) {
        Some(m) => m,
        None => 0,
    }
}

/// One re-based line: empty stays empty; otherwise its body (leading
/// whitespace removed), prefixed by `indent` and by the spaces by which its
/// lead exceeds `base` — unless it is the bare first line.
pub open spec fn rebase_line(line: Seq<char>, indent: Seq<char>, base: nat, bare: bool) -> Seq<char> {
    if line.len() == 0 {
        Seq::empty()
    } else if bare {
        trim_start(line)
    } else {
        indent + spaces((lead_bytes(line) - base) as nat) + trim_start(line)
    }
}

/// The whole re-based block: every line re-based, joined with `'\n'`.
pub open spec fn rebased(lines: Seq<Seq<char>>, indent: Seq<char>, line0_bare: bool) -> Seq<char> {
    join(
        Seq::new(
            lines.len(),
            |i: int| rebase_line(lines[i], indent, base_lead(lines), i == 0 && line0_bare),
        ),
        seq!['\n'],
    )
}

pub proof fn lemma_min_lead_le(lines: Seq<Seq<char>>, i: int)
    requires
        0 <= i < lines.len(),
        lines[i].len() > 0,
    ensures
        min_lead(lines) is Some,
        min_lead(lines)->0 <= lead_bytes(lines[i]),
    decreases lines.len(),
{
    if i < lines.len() - 1 {
        lemma_min_lead_le(lines.drop_last(), i);
    }
}

pub proof fn lemma_join_push(parts: Seq<Seq<char>>, p: Seq<char>, sep: Seq<char>)
    ensures
        join(parts.push(p), sep) == if parts.len() == 0 { p } else { join(parts, sep) + sep + p },
{
    assert(parts.push(p).drop_last() =~= parts);
}

/// The views of a slice of character vectors.
pub open spec fn vecs_view(lines: Seq<Vec<char>>) -> Seq<Seq<char>> {
    Seq::new(lines.len(), |i: int| lines[i]@)
}

/// The view of a slice of string slices as a sequence of character sequences.
pub open spec fn lines_view(lines: Seq<&str>) -> Seq<Seq<char>> {
    Seq::new(lines.len(), |i: int| lines[i]@)
}

/// The lines joined with `sep` between consecutive lines.
pub fn join_lines(lines: &[Vec<char>], sep: &[char]) -> (r: Vec<char>)
    ensures
        r@ == join(vecs_view(lines@), sep@),
{
    let ghost lv = vecs_view(lines@);
    let mut out: Vec<char> = Vec::new();
    let mut n: usize = 0;
    while n < lines.len()
        invariant
            n <= lines@.len(),
            lv == vecs_view(lines@),
            out@ == join(lv.take(n as int), sep@),
        decreases lines@.len() - n,
    {
        let ghost before = out@;
        if n > 0 {
            push_all(&mut out, sep);
        }
        push_all(&mut out, lines[n].as_slice());
        proof {
            lemma_join_push(lv.take(n as int), lv[n as int], sep@);
            assert(lv.take(n + 1) =~= lv.take(n as int).push(lv[n as int]));
            if n == 0 {
                assert(before =~= Seq::<char>::empty());
            }
        }
        assert(out@ =~= join(lv.take(n + 1), sep@));
        n = n + 1;
    }
    assert(lv.take(lv.len() as int) =~= lv);
    out
}

/// Number of leading whitespace characters of `s`, and their width in bytes.
fn leading_ws_wide(s: &[char]) -> (r: (usize, u128))
    ensures
        r.0 == lead_ws(s@),
        r.1 == lead_bytes(s@),
{
    let n = s.len();
    let mut i: usize = 0;
    let mut bytes: u128 = 0;
    proof {
        lemma_lead_ws_bound(s@);
    }
    while i < n && is_whitespace(s[i])
        invariant
            n == s@.len(),
            i <= lead_ws(s@),
            lead_ws(s@) <= s@.len(),
            forall|j: int| 0 <= j < lead_ws(s@) ==> is_ws(#[trigger] s@[j]),
            lead_ws(s@) < s@.len() ==> !is_ws(s@[lead_ws(s@) as int]),
            bytes == byte_len(s@.take(i as int)),
            bytes <= 4 * i,
        decreases s@.len() - i,
    {
        let w = char_width(s[i]);
        proof {
            lemma_byte_len_push(s@.take(i as int), s@[i as int]);
            assert(s@.take(i + 1) =~= s@.take(i as int).push(s@[i as int]));
        }
        bytes = bytes + w as u128;
        i = i + 1;
    }
    (i, bytes)
}

/// Append `n` spaces to `dst`.
fn push_spaces_wide(dst: &mut Vec<char>, n: u128)
    ensures
        final(dst)@ == old(dst)@ + spaces(n as nat),
{
    let mut i: u128 = 0;
    while i < n
        invariant
            i <= n,
            dst@ == old(dst)@ + spaces(i as nat),
        decreases n - i,
    {
        dst.push(' ');
        i = i + 1;
        assert(spaces(i as nat) =~= spaces((i - 1) as nat).push(' '));
    }
}

/// Shift a block of lines to `indent` while keeping their exact relative
/// nesting (see `rebase`).
pub fn rebase_lines(lines: &[Vec<char>], indent: &[char], line0_bare: bool) -> (r: Vec<char>)
    ensures
        r@ == rebased(vecs_view(lines@), indent@, line0_bare),
{
    let ghost lv = vecs_view(lines@);
    let mut leads: Vec<(usize, u128)> = Vec::new();
    let mut i: usize = 0;
    while i < lines.len()
        invariant
            i <= lines@.len(),
            lv == vecs_view(lines@),
            leads@.len() == i,
            forall|j: int|
                0 <= j < i ==> (#[trigger] leads@[j]).0 == lead_ws(lv[j]) && leads@[j].1
                    == lead_bytes(lv[j]),
        decreases lines@.len() - i,
    {
        let l = leading_ws_wide(lines[i].as_slice());
        leads.push(l);
        i = i + 1;
    }
    let mut has_min = false;
    let mut base: u128 = 0;
    let mut k: usize = 0;
    while k < lines.len()
        invariant
            k <= lines@.len(),
            lv == vecs_view(lines@),
            leads@.len() == lv.len(),
            forall|j: int|
                0 <= j < lv.len() ==> (#[trigger] leads@[j]).0 == lead_ws(lv[j]) && leads@[j].1
                    == lead_bytes(lv[j]),
            has_min == (min_lead(lv.take(k as int)) is Some),
            has_min ==> base == min_lead(lv.take(k as int))->0,
            !has_min ==> base == 0,
        decreases lv.len() - k,
    {
        assert(lv.take(k + 1).drop_last() =~= lv.take(k as int));
        if lines[k].len() > 0 {
            let b = leads[k].1;
            if !has_min || b < base {
                base = b;
            }
            has_min = true;
        }
        k = k + 1;
    }
    assert(lv.take(lv.len() as int) =~= lv);
    let ghost b = base_lead(lv);
    assert(k == lv.len());
    assert(min_lead(lv.take(k as int)) == min_lead(lv));
    assert(base == b);
    let ghost parts = Seq::new(
        lv.len(),
        |j: int| rebase_line(lv[j], indent@, b, j == 0 && line0_bare),
    );
    let mut out: Vec<char> = Vec::new();
    let mut n: usize = 0;
    while n < lines.len()
        invariant
            n <= lines@.len(),
            lv == vecs_view(lines@),
            leads@.len() == lv.len(),
            forall|j: int|
                0 <= j < lv.len() ==> (#[trigger] leads@[j]).0 == lead_ws(lv[j]) && leads@[j].1
                    == lead_bytes(lv[j]),
            base == b,
            b == base_lead(lv),
            parts == Seq::new(
                lv.len(),
                |j: int| rebase_line(lv[j], indent@, b, j == 0 && line0_bare),
            ),
            out@ == join(parts.take(n as int), seq!['\n']),
        decreases lv.len() - n,
    {
        let ghost before = out@;
        if n > 0 {
            out.push('\n');
        }
        let line = &lines[n];
        if line.len() > 0 {
            let (lc, lb) = leads[n];
            proof {
                lemma_min_lead_le(lv, n as int);
                lemma_lead_ws_bound(lv[n as int]);
            }
            if !(n == 0 && line0_bare) {
                push_all(&mut out, indent);
                push_spaces_wide(&mut out, lb - base);
            }
            let mut c: usize = lc;
            let ghost mid = out@;
            while c < line.len()
                invariant
                    lc <= c <= line@.len(),
                    out@ == mid + line@.subrange(lc as int, c as int),
                decreases line@.len() - c,
            {
                out.push(line[c]);
                c = c + 1;
                assert(line@.subrange(lc as int, c as int) =~= line@.subrange(
                    lc as int,
                    c - 1,
                ).push(line@[c - 1]));
            }
            assert(line@.subrange(lc as int, line@.len() as int) =~= trim_start(lv[n as int]));
        }
        proof {
            lemma_join_push(parts.take(n as int), parts[n as int], seq!['\n']);
            assert(parts.take(n + 1) =~= parts.take(n as int).push(parts[n as int]));
            if n == 0 {
                assert(before =~= Seq::<char>::empty());
            }
        }
        assert(out@ =~= join(parts.take(n + 1), seq!['\n']));
        n = n + 1;
    }
    assert(parts.take(lv.len() as int) =~= parts);
    out
}

/// Shift a block of lines to `indent` while keeping their exact relative
/// nesting: the smallest leading width over the non-empty lines is removed
/// from every line, and `indent` is put in front. Empty lines stay empty;
/// with `line0_bare`, the first line gets neither indent nor padding.
pub fn rebase(lines: &[&str], indent: &str, line0_bare: bool) -> (r: String)
    ensures
        r@ == rebased(lines_view(lines@), indent@, line0_bare),
{
    let mut views: Vec<Vec<char>> = Vec::new();
    let mut i: usize = 0;
    while i < lines.len()
        invariant
            i <= lines@.len(),
            views@.len() == i,
            forall|j: int| 0 <= j < i ==> (#[trigger] views@[j])@ == lines@[j]@,
        decreases lines@.len() - i,
    {
        views.push(chars_of(lines[i]));
        i = i + 1;
    }
    assert(vecs_view(views@) =~= lines_view(lines@));
    let ind = chars_of(indent);
    let out = rebase_lines(views.as_slice(), ind.as_slice(), line0_bare);
    string_of(&out)
}

} // verus!
