//! Which kind of node the next tokens announce, decided from the first one
//! or two tokens before anything is parsed.

use vstd::prelude::*;
use crate::token::{Delim, Tok, at_group, at_ident, at_punct, at_word, is_dsl_keyword, is_group, is_ident, is_punct, is_word, dsl_keyword, ident_text};
use crate::ds_node::NodeV;
use crate::grammar;
use crate::grammar::{DsError, ident_of};

verus! {

/// The kinds of content node.
#[derive(PartialEq, Eq, Structural, Clone, Copy, Debug)]
pub enum DsNodeType {
    Widget,
    If,
    Iter,
    Niche,
    Match,
    CodeBlock,
}

/// The node kind announced at `s[pos]`, in the order the forms are tried:
/// `${` code block, `@` niche, `match`, a widget's name (any identifier
/// that is not a DSL keyword), `if`, `walk`. A stray `on` and anything else
/// are refused.
pub open spec fn node_type(s: Seq<Tok>, pos: int) -> Result<DsNodeType, DsError> {
    if at_punct(s, pos, '$') && at_group(s, pos + 1, Delim::Brace) {
        Ok(DsNodeType::CodeBlock)
    } else if at_punct(s, pos, '@') {
        Ok(DsNodeType::Niche)
    } else if at_word(s, pos, "match"@) {
        Ok(DsNodeType::Match)
    } else if at_ident(s, pos) && !is_dsl_keyword(ident_of(s[pos])) {
        Ok(DsNodeType::Widget)
    } else if at_word(s, pos, "if"@) {
        Ok(DsNodeType::If)
    } else if at_word(s, pos, "walk"@) {
        Ok(DsNodeType::Iter)
    } else if at_word(s, pos, "on"@) {
        Err(DsError::OnWithoutWidget)
    } else {
        Err(DsError::Expected)
    }
}

/// The kind of a node value.
pub open spec fn kind_of(n: NodeV) -> Option<DsNodeType> {
    match n {
        NodeV::Widget(_) => Some(DsNodeType::Widget),
        NodeV::If { .. } => Some(DsNodeType::If),
        NodeV::Iter { .. } => Some(DsNodeType::Iter),
        NodeV::Niche { .. } => Some(DsNodeType::Niche),
        NodeV::Match { .. } => Some(DsNodeType::Match),
        NodeV::CodeBlock { .. } => Some(DsNodeType::CodeBlock),
        _ => None,
    }
}

/// `s[pos]` is an identifier spelled like one of the DSL's own keywords
/// (`walk`, `with`, `on`, `elif`, `by`).
pub open spec fn at_custom_keyword(s: Seq<Tok>, pos: int) -> bool {
    &&& 0 <= pos < s.len()
    &&& s[pos] matches Tok::Ident { text, .. } && is_dsl_keyword(text@)
}

/// Does `s[pos]` spell one of the DSL's own keywords?
pub fn is_custom_keyword(s: &[Tok], pos: usize) -> (r: bool)
    ensures
        r == at_custom_keyword(s@, pos as int),
{
    if pos < s.len() {
        match &s[pos] {
            Tok::Ident { text, .. } => dsl_keyword(text.as_slice()),
            _ => false,
        }
    } else {
        false
    }
}

impl DsNodeType {
    /// The node kind announced at `s[pos]` (`node_type`).
    pub fn what_type(s: &[Tok], pos: usize) -> (r: Result<DsNodeType, DsError>)
        ensures
            r == node_type(s@, pos as int),
    {
        if is_punct(s, pos, '$') && pos < s.len() && is_group(s, pos + 1, Delim::Brace) {
            Ok(DsNodeType::CodeBlock)
        } else if is_punct(s, pos, '@') {
            Ok(DsNodeType::Niche)
        } else if is_word(s, pos, "match") {
            Ok(DsNodeType::Match)
        } else if is_ident(s, pos) && !dsl_keyword(ident_text(s, pos).as_slice()) {
            Ok(DsNodeType::Widget)
        } else if is_word(s, pos, "if") {
            Ok(DsNodeType::If)
        } else if is_word(s, pos, "walk") {
            Ok(DsNodeType::Iter)
        } else if is_word(s, pos, "on") {
            Err(DsError::OnWithoutWidget)
        } else {
            Err(DsError::Expected)
        }
    }
}

/// The kind that the first tokens announce is the kind of node that is
/// parsed there; a refusal at that point is the node's refusal.
pub proof fn lemma_node_type_announces(s: Seq<Tok>, pos: int)
    requires
        0 <= pos,
    ensures
        node_type(s, pos) matches Err(e) ==> grammar::node(s, pos) == Err::<(NodeV, int), DsError>(e),
        node_type(s, pos) matches Ok(k) ==> (grammar::node(s, pos) matches Ok((n, _)) ==> kind_of(n) == Some(k)),
{
}

/// A walker over a parsed tree; it holds no state of its own.
pub struct DsTraverse {}

impl DsTraverse {
    /// Visits a root; nothing is collected.
    fn traverse(&self, ds_root: crate::ds_node::DsRoot) {
    }
}

} // verus!
