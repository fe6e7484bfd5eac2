//! The DSL tree: widgets with attributes, enchants and `on` handlers,
//! `if` / `elif` / `else`, `walk`, `@niche`, `match`, and `${ ... }` code
//! blocks. Each executable type has a view of plain mathematical values.

use vstd::prelude::*;
use crate::token::{Tok, TokV, toks_v};
use crate::text::string_of;

verus! {

broadcast use vstd::seq_lib::group_seq_properties;

// ---------------------------------------------------------------- views

pub struct AttrV {
    pub name: Option<Seq<char>>,
    pub value: Seq<TokV>,
    pub reactive: bool,
    pub first_line: usize,
    pub last_line: usize,
}

pub struct OnV {
    pub qualifier: Option<Seq<char>>,
    pub name: Seq<char>,
    pub args: Seq<Seq<TokV>>,
    pub body: Option<Seq<TokV>>,
}

pub struct WidgetV {
    pub name: Seq<char>,
    pub attrs: Seq<AttrV>,
    pub enchants: Seq<Seq<TokV>>,
    pub on_handlers: Seq<OnV>,
}

pub struct ArmV {
    pub pat: Seq<TokV>,
    pub children: Seq<TreeV>,
}

pub enum NodeV {
    Root(Seq<TokV>),
    Widget(WidgetV),
    If { condition: Seq<TokV>, reactive: bool },
    Iter { iterable: Seq<TokV>, variable: Seq<char>, reactive: bool, key: Option<Seq<TokV>> },
    Niche { name: Seq<char>, is_declaration: bool },
    Match { scrutinee: Seq<TokV>, reactive: bool, arms: Seq<ArmV> },
    CodeBlock { tokens: Seq<TokV>, source_text: Option<Seq<char>> },
    Else,
}

pub struct TreeV {
    pub node: NodeV,
    pub children: Seq<TreeV>,
    pub else_branch: Option<Box<TreeV>>,
}

pub struct RootV {
    pub context_attrs: Seq<AttrV>,
    pub parent: Seq<TokV>,
    pub content: TreeV,
}

// ---------------------------------------------------------------- executable types

/// One attribute: `name: value`, or a positional `value`; a leading `$`
/// on the value marks it reactive. `first_line` is the source line where
/// the attribute starts, `last_line` the line where its value ends.
#[derive(Debug)]
pub struct DsAttr {
    pub name: Option<Vec<char>>,
    pub value: Vec<Tok>,
    pub reactive: bool,
    pub first_line: usize,
    pub last_line: usize,
}

/// The parenthesised attribute list of a widget.
#[derive(Debug)]
pub struct DsAttrs {
    pub attrs: Vec<DsAttr>,
}

/// An `on [Qualifier::]Event[(args)] [{ body }]` handler.
#[derive(Debug)]
pub struct DsOn {
    pub qualifier: Option<Vec<char>>,
    pub name: Vec<char>,
    pub args: Vec<Vec<Tok>>,
    pub body: Option<Vec<Tok>>,
}

/// A widget: name, attributes, `[enchants]`, handlers.
#[derive(Debug)]
pub struct DsWidget {
    pub name: Vec<char>,
    pub attrs: DsAttrs,
    pub enchants: Vec<Vec<Tok>>,
    pub on_handlers: Vec<DsOn>,
}

/// `if [$]condition` (also an `elif` link of a chain).
#[derive(Debug)]
pub struct DsIf {
    pub condition: Vec<Tok>,
    pub reactive: bool,
}

/// `walk [$]iterable with variable [by key]`.
#[derive(Debug)]
pub struct DsIter {
    pub iterable: Vec<Tok>,
    pub variable: Vec<char>,
    pub reactive: bool,
    pub key: Option<Vec<Tok>>,
}

/// `@name` (fill a slot) or `@@name` (declare a slot).
#[derive(Debug)]
pub struct DsNiche {
    pub name: Vec<char>,
    pub is_declaration: bool,
}

/// One arm of a `match`: `pattern => { children }`.
#[derive(Debug)]
pub struct DsMatchArm {
    pub pat: Vec<Tok>,
    pub children: Vec<DsTree>,
}

/// `match [$]scrutinee { arms }`.
#[derive(Debug)]
pub struct DsMatch {
    pub scrutinee: Vec<Tok>,
    pub reactive: bool,
    pub arms: Vec<DsMatchArm>,
}

/// A `${ ... }` block of Rust code, kept verbatim.
#[derive(Debug)]
pub struct DsCodeBlock {
    pub tokens: Vec<Tok>,
    pub source_text: Option<Vec<char>>,
}

#[derive(Debug)]
pub enum DsNode {
    Root(Vec<Tok>),
    Widget(DsWidget),
    If(DsIf),
    Iter(DsIter),
    Niche(DsNiche),
    Match(DsMatch),
    CodeBlock(DsCodeBlock),
    Else,
}

/// A node with its children and, for an `if`, the rest of its chain.
#[derive(Debug)]
pub struct DsTree {
    pub node: DsNode,
    pub children: Vec<DsTree>,
    pub else_branch: Option<Box<DsTree>>,
}

/// A parsed `ui!` body: the `:( ... :)` context attributes, the parent
/// expression they name, and the content tree.
#[derive(Debug)]
pub struct DsRoot {
    pub context_attrs: Vec<DsAttr>,
    pub parent: Vec<Tok>,
    pub content: DsTree,
}

// ---------------------------------------------------------------- view functions

pub open spec fn name_v(n: Option<Vec<char>>) -> Option<Seq<char>> {
    match n {
        Some(v) => Some(v@),
        None => None,
    }
}

pub open spec fn opt_toks_v(t: Option<Vec<Tok>>) -> Option<Seq<TokV>> {
    match t {
        Some(v) => Some(toks_v(v@)),
        None => None,
    }
}

pub open spec fn attr_v(a: DsAttr) -> AttrV {
    AttrV {
        name: name_v(a.name),
        value: toks_v(a.value@),
        reactive: a.reactive,
        first_line: a.first_line,
        last_line: a.last_line,
    }
}

pub open spec fn attrs_v(s: Seq<DsAttr>) -> Seq<AttrV> {
    Seq::new(s.len(), |i: int| attr_v(s[i]))
}

pub open spec fn exprs_v(s: Seq<Vec<Tok>>) -> Seq<Seq<TokV>> {
    Seq::new(s.len(), |i: int| toks_v(s[i]@))
}

pub open spec fn on_v(h: DsOn) -> OnV {
    OnV {
        qualifier: name_v(h.qualifier),
        name: h.name@,
        args: exprs_v(h.args@),
        body: opt_toks_v(h.body),
    }
}

pub open spec fn ons_v(s: Seq<DsOn>) -> Seq<OnV> {
    Seq::new(s.len(), |i: int| on_v(s[i]))
}

pub open spec fn widget_v(w: DsWidget) -> WidgetV {
    WidgetV {
        name: w.name@,
        attrs: attrs_v(w.attrs.attrs@),
        enchants: exprs_v(w.enchants@),
        on_handlers: ons_v(w.on_handlers@),
    }
}

pub open spec fn arm_v(a: DsMatchArm) -> ArmV
    decreases a,
{
    ArmV { pat: toks_v(a.pat@), children: trees_v(a.children@) }
}

pub open spec fn arms_v(s: Seq<DsMatchArm>) -> Seq<ArmV>
    decreases s,
{
    if s.len() == 0 {
        Seq::empty()
    } else {
        arms_v(s.drop_last()).push(arm_v(s.last()))
    }
}

pub open spec fn node_v(n: DsNode) -> NodeV
    decreases n,
{
    match n {
        DsNode::Root(e) => NodeV::Root(toks_v(e@)),
        DsNode::Widget(w) => NodeV::Widget(widget_v(w)),
        DsNode::If(i) => NodeV::If { condition: toks_v(i.condition@), reactive: i.reactive },
        DsNode::Iter(i) => NodeV::Iter {
            iterable: toks_v(i.iterable@),
            variable: i.variable@,
            reactive: i.reactive,
            key: opt_toks_v(i.key),
        },
        DsNode::Niche(n) => NodeV::Niche { name: n.name@, is_declaration: n.is_declaration },
        DsNode::Match(m) => NodeV::Match {
            scrutinee: toks_v(m.scrutinee@),
            reactive: m.reactive,
            arms: arms_v(m.arms@),
        },
        DsNode::CodeBlock(c) => NodeV::CodeBlock {
            tokens: toks_v(c.tokens@),
            source_text: name_v(c.source_text),
        },
        DsNode::Else => NodeV::Else,
    }
}

pub open spec fn tree_v(t: DsTree) -> TreeV
    decreases t,
{
    TreeV {
        node: node_v(t.node),
        children: trees_v(t.children@),
        else_branch: match t.else_branch {
            Some(b) => Some(Box::new(tree_v(*b))),
            None => None,
        },
    }
}

pub open spec fn trees_v(s: Seq<DsTree>) -> Seq<TreeV>
    decreases s,
{
    if s.len() == 0 {
        Seq::empty()
    } else {
        trees_v(s.drop_last()).push(tree_v(s.last()))
    }
}

pub open spec fn root_v(r: DsRoot) -> RootV {
    RootV {
        context_attrs: attrs_v(r.context_attrs@),
        parent: toks_v(r.parent@),
        content: tree_v(r.content),
    }
}

pub proof fn lemma_trees_v(s: Seq<DsTree>)
    ensures
        trees_v(s).len() == s.len(),
        forall|i: int| 0 <= i < s.len() ==> #[trigger] trees_v(s)[i] == tree_v(s[i]),
    decreases s.len(),
{
    if s.len() > 0 {
        lemma_trees_v(s.drop_last());
    }
}

pub proof fn lemma_trees_v_push(s: Seq<DsTree>, t: DsTree)
    ensures
        trees_v(s.push(t)) == trees_v(s).push(tree_v(t)),
{
    assert(s.push(t).drop_last() =~= s);
}

pub proof fn lemma_arms_v_push(s: Seq<DsMatchArm>, a: DsMatchArm)
    ensures
        arms_v(s.push(a)) == arms_v(s).push(arm_v(a)),
{
    assert(s.push(a).drop_last() =~= s);
}

pub proof fn lemma_tree_v(t: DsTree)
    ensures
        tree_v(t).node == node_v(t.node),
        tree_v(t).children == trees_v(t.children@),
        tree_v(t).else_branch == (match t.else_branch {
            Some(b) => Some(Box::new(tree_v(*b))),
            None => None::<Box<TreeV>>,
        }),
        (t.node is Widget) == (tree_v(t).node is Widget),
        t.node matches DsNode::Widget(w) ==> tree_v(t).node == NodeV::Widget(widget_v(w)),
{
    if let DsNode::Widget(w) = t.node {
        assert(node_v(DsNode::Widget(w)) == NodeV::Widget(widget_v(w)));
    } else {
        assert(!(node_v(t.node) is Widget));
    }
}

impl View for DsAttr {
    type V = AttrV;

    open spec fn view(&self) -> AttrV {
        attr_v(*self)
    }
}

impl View for DsOn {
    type V = OnV;

    open spec fn view(&self) -> OnV {
        on_v(*self)
    }
}

impl View for DsWidget {
    type V = WidgetV;

    open spec fn view(&self) -> WidgetV {
        widget_v(*self)
    }
}

impl View for DsNode {
    type V = NodeV;

    open spec fn view(&self) -> NodeV {
        node_v(*self)
    }
}

impl View for DsTree {
    type V = TreeV;

    open spec fn view(&self) -> TreeV {
        tree_v(*self)
    }
}

impl View for DsMatchArm {
    type V = ArmV;

    open spec fn view(&self) -> ArmV {
        arm_v(*self)
    }
}

impl View for DsRoot {
    type V = RootV;

    open spec fn view(&self) -> RootV {
        root_v(*self)
    }
}


// ---------------------------------------------------------------- accessors

impl DsTree {
    pub fn get_node(&self) -> (r: &DsNode)
        ensures
            *r == self.node,
    {
        &self.node
    }

    pub fn get_children(&self) -> (r: &[DsTree])
        ensures
            r@ == self.children@,
    {
        self.children.as_slice()
    }

    /// The `elif` / `else` that continues an `if`.
    pub fn get_else_branch(&self) -> (r: Option<&DsTree>)
        ensures
            match (r, self.else_branch) {
                (Some(a), Some(b)) => *a == *b,
                (None, None) => true,
                _ => false,
            },
    {
        match &self.else_branch {
            Some(b) => Some(&**b),
            None => None,
        }
    }
}

impl DsWidget {
    pub fn get_name(&self) -> (r: String)
        ensures
            r@ == self.name@,
    {
        string_of(self.name.as_slice())
    }

    pub fn get_attrs(&self) -> (r: &DsAttrs)
        ensures
            *r == self.attrs,
    {
        &self.attrs
    }

    pub fn get_enchants(&self) -> (r: &[Vec<Tok>])
        ensures
            r@ == self.enchants@,
    {
        self.enchants.as_slice()
    }

    pub fn get_on_handlers(&self) -> (r: &[DsOn])
        ensures
            r@ == self.on_handlers@,
    {
        self.on_handlers.as_slice()
    }
}

impl DsAttr {
    /// The attribute's name, for a `name: value` attribute.
    pub fn get_name(&self) -> (r: Option<String>)
        ensures
            r matches Some(s) ==> self.name matches Some(n) && s@ == n@,
            r is None ==> self.name is None,
    {
        match &self.name {
            Some(n) => Some(string_of(n.as_slice())),
            None => None,
        }
    }
}

impl DsOn {
    pub fn get_name(&self) -> (r: String)
        ensures
            r@ == self.name@,
    {
        string_of(self.name.as_slice())
    }

    /// `Q` of `on Q::Name`.
    pub fn get_qualifier(&self) -> (r: Option<String>)
        ensures
            r matches Some(s) ==> self.qualifier matches Some(q) && s@ == q@,
            r is None ==> self.qualifier is None,
    {
        match &self.qualifier {
            Some(q) => Some(string_of(q.as_slice())),
            None => None,
        }
    }

    pub fn get_args(&self) -> (r: &[Vec<Tok>])
        ensures
            r@ == self.args@,
    {
        self.args.as_slice()
    }

    /// The statements of the handler's block, when it has one.
    pub fn get_body(&self) -> (r: Option<&Vec<Tok>>)
        ensures
            match (r, self.body) {
                (Some(a), Some(b)) => a@ == b@,
                (None, None) => true,
                _ => false,
            },
    {
        match &self.body {
            Some(b) => Some(b),
            None => None,
        }
    }
}

impl DsIf {
    pub fn get_condition(&self) -> (r: &[Tok])
        ensures
            r@ == self.condition@,
    {
        self.condition.as_slice()
    }

    pub fn is_reactive(&self) -> (r: bool)
        ensures
            r == self.reactive,
    {
        self.reactive
    }
}

impl DsIter {
    pub fn get_iterable(&self) -> (r: &[Tok])
        ensures
            r@ == self.iterable@,
    {
        self.iterable.as_slice()
    }

    pub fn get_variable(&self) -> (r: String)
        ensures
            r@ == self.variable@,
    {
        string_of(self.variable.as_slice())
    }

    pub fn is_reactive(&self) -> (r: bool)
        ensures
            r == self.reactive,
    {
        self.reactive
    }

    /// The `by` key expression, when there is one.
    pub fn get_key(&self) -> (r: Option<&Vec<Tok>>)
        ensures
            match (r, self.key) {
                (Some(a), Some(b)) => a@ == b@,
                (None, None) => true,
                _ => false,
            },
    {
        match &self.key {
            Some(k) => Some(k),
            None => None,
        }
    }
}

impl DsNiche {
    pub fn get_name(&self) -> (r: String)
        ensures
            r@ == self.name@,
    {
        string_of(self.name.as_slice())
    }

    /// `true` for `@@name`, `false` for `@name`.
    pub fn is_declaration(&self) -> (r: bool)
        ensures
            r == self.is_declaration,
    {
        self.is_declaration
    }
}

impl DsMatch {
    pub fn get_scrutinee(&self) -> (r: &[Tok])
        ensures
            r@ == self.scrutinee@,
    {
        self.scrutinee.as_slice()
    }

    pub fn is_reactive(&self) -> (r: bool)
        ensures
            r == self.reactive,
    {
        self.reactive
    }

    pub fn get_arms(&self) -> (r: &[DsMatchArm])
        ensures
            r@ == self.arms@,
    {
        self.arms.as_slice()
    }
}

impl DsMatchArm {
    pub fn get_pat(&self) -> (r: &[Tok])
        ensures
            r@ == self.pat@,
    {
        self.pat.as_slice()
    }

    pub fn get_children(&self) -> (r: &[DsTree])
        ensures
            r@ == self.children@,
    {
        self.children.as_slice()
    }
}

impl DsCodeBlock {
    /// The tokens between the braces.
    pub fn get_tokens(&self) -> (r: &[Tok])
        ensures
            r@ == self.tokens@,
    {
        self.tokens.as_slice()
    }

    /// The braced source text, when the tokens came with their source.
    pub fn get_source_text(&self) -> (r: Option<String>)
        ensures
            r matches Some(s) ==> self.source_text matches Some(t) && s@ == t@,
            r is None ==> self.source_text is None,
    {
        match &self.source_text {
            Some(t) => Some(string_of(t.as_slice())),
            None => None,
        }
    }
}

impl DsRoot {
    pub fn get_context_attrs(&self) -> (r: &[DsAttr])
        ensures
            r@ == self.context_attrs@,
    {
        self.context_attrs.as_slice()
    }

    /// The parent expression: the `parent` context attribute, or `()`.
    pub fn get_parent(&self) -> (r: &[Tok])
        ensures
            r@ == self.parent@,
    {
        self.parent.as_slice()
    }

    pub fn get_content(&self) -> (r: &DsTree)
        ensures
            *r == self.content,
    {
        &self.content
    }
}

} // verus!
