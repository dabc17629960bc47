//! Node handles: a document reference and an identity, and the navigation that
//! the structural fields of the arena allow.

use crate::dom::RealDom;
use crate::record::NodeData;
use crate::store::slab_index;
use vstd::prelude::*;

verus! {

/// What a handle refers to: a document and the identity of one of its nodes.
#[derive(Clone, Copy)]
pub struct Entry<'a> {
    pub dom: &'a RealDom,
    pub id: usize,
}

/// A transient, copyable handle on one node of a document. It owns nothing;
/// any number of handles may name the same node.
#[derive(Clone, Copy)]
pub struct BlitzNode<'a>(pub Entry<'a>);

impl RealDom {
    /// Identity of the sibling `offset` places after the node `id` (before it,
    /// for a negative offset), if the node has a parent and the parent has a
    /// child at that position.
    pub open spec fn sibling(&self, id: int, offset: int) -> Option<usize> {
        match self.record(id).parent {
            None => None,
            Some(p) => {
                let at = self.record(id).child_idx + offset;
                let siblings = self.record(p as int).children@;
                if 0 <= at < siblings.len() {
                    Some(siblings[at])
                } else {
                    None
                }
            },
        }
    }

    /// Whether the node `id` is an element.
    pub open spec fn element_at(&self, id: int) -> bool {
        self.record(id).node@ is Element
    }

    /// The handle on the document root, identity 0.
    pub fn root_node(&self) -> (root: BlitzNode<'_>)
        ensures
            root == (BlitzNode(Entry { dom: self, id: 0 })),
            self.wf() ==> root.wf(),
    {
        BlitzNode(Entry { id: 0, dom: self })
    }

    /// The root element of the document: the first child of the document
    /// root. The document root must have a first child and that child must be
    /// an element.
    pub fn root_element(&self) -> (root: BlitzNode<'_>)
        requires
            self.wf(),
            self.record(0).children@.len() > 0,
            self.element_at(self.record(0).children@[0] as int),
        ensures
            root == (BlitzNode(Entry { dom: self, id: self.record(0).children@[0] })),
            root.wf(),
            self.element_at(root.0.id as int),
    {
        let first = self.root_node().first_child();
        let element = first.unwrap().as_element();
        element.unwrap()
    }
}

impl<'a> BlitzNode<'a> {
    /// The handle names a node of a built document.
    pub open spec fn wf(&self) -> bool {
        self.0.dom.wf() && self.0.id < self.0.dom.count()
    }

    /// The handle on the node `id` of the same document.
    pub open spec fn at(&self, id: usize) -> BlitzNode<'a> {
        BlitzNode(Entry { dom: self.0.dom, id })
    }

    /// The handle on the node `id` of the same document, or none.
    pub open spec fn at_opt(&self, id: Option<usize>) -> Option<BlitzNode<'a>> {
        match id {
            Some(id) => Some(self.at(id)),
            None => None,
        }
    }

    /// The record of the node that the handle names.
    pub open spec fn record(&self) -> NodeData {
        self.0.dom.record(self.0.id as int)
    }

    /// A handle on the node `id` of the same document.
    pub fn with(&self, id: usize) -> (node: Self)
        ensures
            node == self.at(id),
    {
        BlitzNode(Entry { id, dom: self.0.dom })
    }

    /// The record of this node.
    pub fn data(&self) -> (record: &'a NodeData)
        requires
            self.wf(),
        ensures
            *record == self.record(),
    {
        slab_index(&self.0.dom.nodes, self.0.id)
    }

    /// The identity of this node.
    pub fn debug_id(self) -> (id: usize)
        ensures
            id == self.0.id,
    {
        self.0.id
    }

    /// The sibling `n` places further in the parent's child list: none for the
    /// root and none past the last child.
    pub fn forward(&self, n: usize) -> (node: Option<Self>)
        requires
            self.wf(),
        ensures
            node == self.at_opt(self.0.dom.sibling(self.0.id as int, n as int)),
            node is Some ==> node->0.wf(),
    {
        let node = self.data();
        let parent = match node.parent {
            Some(parent) => parent,
            None => { return None; },
        };
        proof {
            assert(crate::dom::linked(self.0.dom.slots(), self.0.id as int));
        }
        let siblings = &self.with(parent).data().children;
        if n >= siblings.len() || node.child_idx >= siblings.len() - n {
            return None;
        }
        let id = siblings[node.child_idx + n];
        proof {
            assert(crate::dom::linked(self.0.dom.slots(), parent as int));
        }
        Some(self.with(id))
    }

    /// The sibling `n` places back in the parent's child list: none for the
    /// root and none before the first child.
    pub fn backward(&self, n: usize) -> (node: Option<Self>)
        requires
            self.wf(),
        ensures
            node == self.at_opt(self.0.dom.sibling(self.0.id as int, -(n as int))),
            node is Some ==> node->0.wf(),
    {
        let node = self.data();
        if node.child_idx < n {
            return None;
        }
        let parent = match node.parent {
            Some(parent) => parent,
            None => { return None; },
        };
        proof {
            assert(crate::dom::linked(self.0.dom.slots(), self.0.id as int));
            assert(crate::dom::linked(self.0.dom.slots(), parent as int));
        }
        let siblings = &self.with(parent).data().children;
        let id = siblings[node.child_idx - n];
        Some(self.with(id))
    }

    /// Whether this node is an element.
    pub fn is_element(&self) -> (b: bool)
        requires
            self.wf(),
        ensures
            b == self.0.dom.element_at(self.0.id as int),
    {
        match &self.data().node {
            crate::tree::Payload::Element { .. } => true,
            _ => false,
        }
    }

    /// Whether this node is a text node.
    pub fn is_text_node(&self) -> (b: bool)
        requires
            self.wf(),
        ensures
            b == (self.record().node@ is Text),
    {
        match &self.data().node {
            crate::tree::Payload::Text { .. } => true,
            _ => false,
        }
    }

    /// The structural parent: none for the document root only.
    pub fn parent_node(&self) -> (node: Option<Self>)
        requires
            self.wf(),
        ensures
            node == self.at_opt(self.record().parent),
            node is None <==> self.0.id == 0,
            node is Some ==> node->0.wf(),
    {
        proof {
            assert(crate::dom::linked(self.0.dom.slots(), self.0.id as int));
        }
        match self.data().parent {
            Some(id) => Some(self.with(id)),
            None => None,
        }
    }

    /// The first child in document order: none for a leaf.
    pub fn first_child(&self) -> (node: Option<Self>)
        requires
            self.wf(),
        ensures
            node == (if self.record().children@.len() > 0 {
                Some(self.at(self.record().children@[0]))
            } else {
                None
            }),
            node is Some ==> node->0.wf(),
    {
        proof {
            assert(crate::dom::linked(self.0.dom.slots(), self.0.id as int));
        }
        let children = &self.data().children;
        if children.len() > 0 {
            Some(self.with(children[0]))
        } else {
            None
        }
    }

    /// The last child in document order: none for a leaf.
    pub fn last_child(&self) -> (node: Option<Self>)
        requires
            self.wf(),
        ensures
            node == (if self.record().children@.len() > 0 {
                Some(self.at(self.record().children@[self.record().children@.len() - 1]))
            } else {
                None
            }),
            node is Some ==> node->0.wf(),
    {
        proof {
            assert(crate::dom::linked(self.0.dom.slots(), self.0.id as int));
        }
        let children = &self.data().children;
        if children.len() > 0 {
            Some(self.with(children[children.len() - 1]))
        } else {
            None
        }
    }

    /// The sibling just before this node.
    pub fn prev_sibling(&self) -> (node: Option<Self>)
        requires
            self.wf(),
        ensures
            node == self.at_opt(self.0.dom.sibling(self.0.id as int, -1)),
            node is Some ==> node->0.wf(),
    {
        self.backward(1)
    }

    /// The sibling just after this node.
    pub fn next_sibling(&self) -> (node: Option<Self>)
        requires
            self.wf(),
        ensures
            node == self.at_opt(self.0.dom.sibling(self.0.id as int, 1)),
            node is Some ==> node->0.wf(),
    {
        self.forward(1)
    }

    /// The handle on the document root.
    pub fn owner_doc(&self) -> (node: Self)
        ensures
            node == self.at(0),
            self.wf() ==> node.wf(),
    {
        self.with(0)
    }

    /// This node as an element: the same handle if the node is an element,
    /// none otherwise.
    pub fn as_element(&self) -> (node: Option<Self>)
        requires
            self.wf(),
        ensures
            node == (if self.0.dom.element_at(self.0.id as int) {
                Some(*self)
            } else {
                None
            }),
    {
        if self.is_element() {
            Some(*self)
        } else {
            None
        }
    }

    /// The parent as the resolver's traversal sees it: the parent node if it
    /// is an element, none otherwise.
    pub fn traversal_parent(&self) -> (node: Option<Self>)
        requires
            self.wf(),
        ensures
            node == (match self.record().parent {
                Some(p) if self.0.dom.element_at(p as int) => Some(self.at(p)),
                _ => None,
            }),
            node is Some ==> node->0.wf(),
    {
        match self.parent_node() {
            Some(node) => node.as_element(),
            None => None,
        }
    }

    /// Whether this node is the document root, identity 0.
    pub fn is_document_root(&self) -> (b: bool)
        ensures
            b == (self.0.id == 0),
    {
        self.0.id == 0
    }

    /// Whether this node has no parent.
    pub fn is_root(&self) -> (b: bool)
        requires
            self.wf(),
        ensures
            b == (self.record().parent is None),
            b == (self.0.id == 0),
    {
        self.parent_node().is_none()
    }

    /// Whether this node has no children.
    pub fn is_empty(&self) -> (b: bool)
        requires
            self.wf(),
        ensures
            b == (self.record().children@.len() == 0),
    {
        self.first_child().is_none()
    }
}

} // verus!
