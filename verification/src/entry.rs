//! Entry points of the parser: a whole `ui!` body, a tree, an attribute,
//! an attribute list.

use vstd::prelude::*;
use crate::token::{Delim, Tok, toks_v, toks_clone, is_punct, is_group, lemma_toks_v};
use crate::ds_node::{AttrV, DsAttr, DsAttrs, DsTree, DsRoot, attrs_v};
use crate::grammar;
use crate::grammar::DsError;
use crate::parse::{attr, attr_list, attrs_at, tree};
use crate::text::{contains_char, eq_lit};

verus! {

broadcast use vstd::seq_lib::group_seq_properties;

/// The unit expression `()` as tokens.
pub fn unit_expr() -> (r: Vec<Tok>)
    ensures
        toks_v(r@) == grammar::unit_v(),
{
    let g = Tok::Group {
        delim: Delim::Paren,
        inner: Vec::new(),
        lines: crate::token::Lines { start: 0, end: 0 },
        source: None,
    };
    let mut v: Vec<Tok> = Vec::new();
    v.push(g);
    proof {
        lemma_toks_v(v@);
        lemma_toks_v(Seq::<Tok>::empty());
        assert(toks_v(v@) =~= grammar::unit_v());
    }
    v
}

fn parent_of(attrs: &[DsAttr]) -> (r: Vec<Tok>)
    ensures
        toks_v(r@) == grammar::parent_of(attrs_v(attrs@)),
{
    let ghost all = attrs_v(attrs@);
    let mut i: usize = 0;
    while i < attrs.len()
        invariant
            i <= attrs@.len(),
            all == attrs_v(attrs@),
            grammar::parent_of(all) == grammar::parent_of(all.skip(i as int)),
        decreases attrs@.len() - i,
    {
        assert(all.skip(i as int).drop_first() =~= all.skip(i + 1));
        let named_parent = match &attrs[i].name {
            Some(n) => eq_lit(n.as_slice(), "parent"),
            None => false,
        };
        if named_parent {
            return toks_clone(attrs[i].value.as_slice());
        }
        i = i + 1;
    }
    assert(all.skip(i as int) =~= Seq::<AttrV>::empty());
    unit_expr()
}

fn header(s: &[Tok]) -> (r: Result<Vec<DsAttr>, DsError>)
    requires
        s@.len() >= 1,
    ensures
        match (r, grammar::header(s@)) {
            (Ok(a), Ok(v)) => attrs_v(a@) == v,
            (Err(a), Err(b)) => a == b,
            _ => false,
        },
{
    if !is_group(s, 1, Delim::Paren) {
        return Err(DsError::Expected);
    }
    match &s[1] {
        Tok::Group { inner, source, .. } => {
            let attrs = match attr_list(inner.as_slice(), true) {
                Ok(a) => a,
                Err(e) => {
                    return Err(e);
                },
            };
            let one_line = match source {
                Some(t) => !contains_char(t.as_slice(), '\n'),
                None => false,
            };
            if one_line && attrs.len() > 1 {
                Err(DsError::HeaderOneLine)
            } else {
                Ok(attrs)
            }
        },
        _ => Err(DsError::Expected),
    }
}

fn tree_from(s: &[Tok], pos: usize) -> (r: Result<DsTree, DsError>)
    ensures
        match (r, grammar::tree_from(s@, pos as int)) {
            (Ok(t), Ok(v)) => t@ == v,
            (Err(a), Err(b)) => a == b,
            _ => false,
        },
{
    if pos >= s.len() {
        assert(grammar::node(s@, pos as int) is Err);
        return Err(DsError::Expected);
    }
    match tree(s, pos) {
        Ok((t, p)) => if p == s.len() {
            Ok(t)
        } else {
            Err(DsError::Unexpected)
        },
        Err(e) => Err(e),
    }
}

impl DsRoot {
    /// Parse a `ui!` body: an optional `:( attrs :)` header, then one
    /// content tree that takes all remaining tokens.
    pub fn parse(s: &[Tok]) -> (r: Result<DsRoot, DsError>)
        ensures
            match (r, grammar::root(s@)) {
                (Ok(t), Ok(v)) => t@ == v,
                (Err(a), Err(b)) => a == b,
                _ => false,
            },
    {
        if is_punct(s, 0, ':') {
            let attrs = match header(s) {
                Ok(a) => a,
                Err(e) => {
                    return Err(e);
                },
            };
            let parent = parent_of(attrs.as_slice());
            match tree_from(s, 2) {
                Ok(t) => Ok(DsRoot { context_attrs: attrs, parent: parent, content: t }),
                Err(e) => Err(e),
            }
        } else {
            match tree_from(s, 0) {
                Ok(t) => {
                    let attrs: Vec<DsAttr> = Vec::new();
                    assert(attrs_v(attrs@) =~= Seq::<AttrV>::empty());
                    Ok(DsRoot { context_attrs: attrs, parent: unit_expr(), content: t })
                },
                Err(e) => Err(e),
            }
        }
    }
}

impl DsTree {
    /// Parse a whole token stream as one tree.
    pub fn parse(s: &[Tok]) -> (r: Result<DsTree, DsError>)
        ensures
            match (r, grammar::tree_all(s@)) {
                (Ok(t), Ok(v)) => t@ == v,
                (Err(a), Err(b)) => a == b,
                _ => false,
            },
    {
        tree_from(s, 0)
    }
}

impl DsAttr {
    /// Parse a whole token stream as one attribute.
    pub fn parse(s: &[Tok]) -> (r: Result<DsAttr, DsError>)
        ensures
            match (r, grammar::attr_all(s@)) {
                (Ok(a), Ok(v)) => a@ == v,
                (Err(a), Err(b)) => a == b,
                _ => false,
            },
    {
        if s.len() == 0 {
            return Err(DsError::Rust);
        }
        match attr(s, 0) {
            Ok((a, p)) => if p == s.len() {
                Ok(a)
            } else {
                Err(DsError::Unexpected)
            },
            Err(e) => Err(e),
        }
    }
}

impl DsAttrs {
    /// Parse a whole token stream as an optional `( attrs )` list.
    pub fn parse(s: &[Tok]) -> (r: Result<DsAttrs, DsError>)
        ensures
            match (r, grammar::attrs_all(s@)) {
                (Ok(a), Ok(v)) => attrs_v(a.attrs@) == v,
                (Err(a), Err(b)) => a == b,
                _ => false,
            },
    {
        match attrs_at(s, 0) {
            Ok((a, p)) => if p == s.len() {
                Ok(DsAttrs { attrs: a })
            } else {
                Err(DsError::Unexpected)
            },
            Err(e) => Err(e),
        }
    }
}

} // verus!
