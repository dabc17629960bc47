//! The parsed markup tree that the arena is built from, and its mathematical
//! model.

use vstd::prelude::*;

verus! {

/// One attribute of an element: its local name and its value.
#[derive(Debug)]
pub struct Attribute {
    pub local: String,
    pub value: String,
}

/// What a parsed node carries besides its children.
#[derive(Debug)]
pub enum Payload {
    Document,
    Doctype,
    Text { contents: String },
    Comment,
    Element { local: String, ns: String, attrs: Vec<Attribute> },
    ProcessingInstruction,
}

/// A node of the parsed tree with its children in document order.
#[derive(Debug)]
pub struct ParsedNode {
    pub data: Payload,
    pub children: Vec<ParsedNode>,
}

/// An attribute as a pair of character sequences.
pub struct AttributeView {
    pub local: Seq<char>,
    pub value: Seq<char>,
}

/// A payload with its strings as character sequences.
pub enum PayloadView {
    Document,
    Doctype,
    Text { contents: Seq<char> },
    Comment,
    Element { local: Seq<char>, ns: Seq<char>, attrs: Seq<AttributeView> },
    ProcessingInstruction,
}

/// A parsed tree as a mathematical value: a payload and the sequence of the
/// children's trees.
pub struct TreeView {
    pub data: PayloadView,
    pub children: Seq<TreeView>,
}

impl View for Attribute {
    type V = AttributeView;

    open spec fn view(&self) -> AttributeView {
        AttributeView { local: self.local@, value: self.value@ }
    }
}

impl View for Payload {
    type V = PayloadView;

    open spec fn view(&self) -> PayloadView {
        match *self {
            Payload::Document => PayloadView::Document,
            Payload::Doctype => PayloadView::Doctype,
            Payload::Text { contents } => PayloadView::Text { contents: contents@ },
            Payload::Comment => PayloadView::Comment,
            Payload::Element { local, ns, attrs } => PayloadView::Element {
                local: local@,
                ns: ns@,
                attrs: Seq::new(attrs@.len(), |i: int| attrs@[i]@),
            },
            Payload::ProcessingInstruction => PayloadView::ProcessingInstruction,
        }
    }
}

/// The mathematical value of a parsed tree.
pub open spec fn tree_view(node: ParsedNode) -> TreeView
    decreases node,
{
    TreeView {
        data: node.data@,
        children: Seq::new(
            node.children@.len(),
            |i: int|
                if 0 <= i < node.children@.len() {
                    tree_view(node.children@[i])
                } else {
                    arbitrary()
                },
        ),
    }
}

impl View for ParsedNode {
    type V = TreeView;

    open spec fn view(&self) -> TreeView {
        tree_view(*self)
    }
}

/// Number of nodes in the first `upto` trees of `trees`.
pub open spec fn forest_count(trees: Seq<TreeView>, upto: int) -> nat
    decreases trees, upto,
{
    if 0 < upto <= trees.len() {
        forest_count(trees, upto - 1) + node_count(trees[upto - 1])
    } else {
        0
    }
}

/// Number of nodes in `tree`, the root included.
pub open spec fn node_count(tree: TreeView) -> nat
    decreases tree, 0int,
{
    1 + forest_count(tree.children, tree.children.len() as int)
}

/// Payloads of the first `upto` trees of `trees`, each tree in pre-order.
pub open spec fn forest_preorder(trees: Seq<TreeView>, upto: int) -> Seq<PayloadView>
    decreases trees, upto,
{
    if 0 < upto <= trees.len() {
        forest_preorder(trees, upto - 1) + preorder(trees[upto - 1])
    } else {
        Seq::empty()
    }
}

/// Payloads of `tree` in pre-order: the root, then its children's subtrees
/// from first to last.
pub open spec fn preorder(tree: TreeView) -> Seq<PayloadView>
    decreases tree, 0int,
{
    seq![tree.data] + forest_preorder(tree.children, tree.children.len() as int)
}

/// The forest counts grow with `upto`.
pub proof fn lemma_forest_count_monotone(trees: Seq<TreeView>, a: int, b: int)
    requires
        0 <= a <= b <= trees.len(),
    ensures
        forest_count(trees, a) <= forest_count(trees, b),
        a < b ==> forest_count(trees, a) + node_count(trees[a]) <= forest_count(trees, b),
    decreases b - a,
{
    if a < b {
        lemma_forest_count_monotone(trees, a, b - 1);
    }
}

} // verus!
