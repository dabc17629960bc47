//! Walks that skip nodes which are not elements, and the iterator over a
//! node's children that the resolver's traversal consumes.

use crate::dom::{linked, RealDom};
use crate::node::BlitzNode;
use vstd::prelude::*;

verus! {

impl RealDom {
    /// The first element among the siblings `n`, `n + 1`, ... places after
    /// the node `id`.
    pub open spec fn element_after(&self, id: int, n: int) -> Option<usize>
        decreases
            (match self.record(id).parent {
                Some(p) => self.record(p as int).children@.len() - self.record(id).child_idx - n,
                None => 0,
            }),
    {
        match self.sibling(id, n) {
            None => None,
            Some(s) => if n >= 0 && self.element_at(s as int) {
                Some(s)
            } else if n >= 0 {
                self.element_after(id, n + 1)
            } else {
                None
            },
        }
    }

    /// The first element among the siblings `n`, `n + 1`, ... places before
    /// the node `id`.
    pub open spec fn element_before(&self, id: int, n: int) -> Option<usize>
        decreases self.record(id).child_idx - n + 1,
    {
        match self.sibling(id, -n) {
            None => None,
            Some(s) => if n >= 0 && self.element_at(s as int) {
                Some(s)
            } else if n >= 0 {
                self.element_before(id, n + 1)
            } else {
                None
            },
        }
    }

    /// The first element in `kids[from..]`.
    pub open spec fn element_among(&self, kids: Seq<usize>, from: int) -> Option<usize>
        decreases kids.len() - from,
    {
        if 0 <= from < kids.len() {
            if self.element_at(kids[from] as int) {
                Some(kids[from])
            } else {
                self.element_among(kids, from + 1)
            }
        } else {
            None
        }
    }
}

/// A pass over the children of one node in document order. A new pass can be
/// started from the node at any time.
pub struct Traverser<'a> {
    dom: &'a RealDom,
    parent: BlitzNode<'a>,
    child_index: usize,
}

impl<'a> Traverser<'a> {
    /// The node whose children the pass yields.
    pub closed spec fn parent(&self) -> BlitzNode<'a> {
        self.parent
    }

    /// How many children the pass has yielded.
    pub closed spec fn position(&self) -> usize {
        self.child_index
    }

    /// The pass is over the children of a node of a built document.
    pub closed spec fn wf(&self) -> bool {
        self.parent.wf() && self.dom == self.parent.0.dom
    }

    /// The children that the pass has still to yield.
    pub open spec fn remaining(&self) -> Seq<usize> {
        let kids = self.parent().record().children@;
        if self.position() <= kids.len() {
            kids.skip(self.position() as int)
        } else {
            Seq::empty()
        }
    }

    /// The next child, or none once every child has been yielded.
    pub fn next(&mut self) -> (node: Option<BlitzNode<'a>>)
        requires
            old(self).wf(),
        ensures
            final(self).wf(),
            final(self).parent() == old(self).parent(),
            old(self).remaining().len() == 0 ==> node is None && *final(self) == *old(self),
            old(self).remaining().len() > 0 ==> node == Some(
                old(self).parent().at(old(self).remaining()[0]),
            ) && node->0.wf() && final(self).position() == old(self).position() + 1
                && final(self).remaining() == old(self).remaining().drop_first(),
    {
        let children = &self.parent.data().children;
        if self.child_index >= children.len() {
            return None;
        }
        proof {
            assert(linked(self.dom.slots(), self.parent.0.id as int));
        }
        let node = self.parent.with(children[self.child_index]);
        self.child_index += 1;
        Some(node)
    }
}

impl<'a> BlitzNode<'a> {
    /// A pass over this node's children, from the first.
    pub fn traversal_children(&self) -> (pass: Traverser<'a>)
        requires
            self.wf(),
        ensures
            pass.wf(),
            pass.parent() == *self,
            pass.position() == 0,
            pass.remaining() == self.record().children@,
    {
        Traverser { dom: self.0.dom, parent: *self, child_index: 0 }
    }

    /// The nearest sibling before this node that is an element, skipping text
    /// and other nodes.
    pub fn prev_sibling_element(&self) -> (node: Option<Self>)
        requires
            self.wf(),
        ensures
            node == self.at_opt(self.0.dom.element_before(self.0.id as int, 1)),
            node is Some ==> node->0.wf(),
    {
        let mut n: usize = 1;
        loop
            invariant
                self.wf(),
                n >= 1,
                self.0.dom.element_before(self.0.id as int, 1) == self.0.dom.element_before(
                    self.0.id as int,
                    n as int,
                ),
            decreases self.record().child_idx - n + 1,
        {
            match self.backward(n) {
                Some(node) => {
                    if node.is_element() {
                        return Some(node);
                    }
                },
                None => { return None; },
            }
            proof {
                assert(linked(self.0.dom.slots(), self.0.id as int));
                let p = self.record().parent->0;
                assert(self.0.dom.record(p as int).children@.len() == self.0.dom.record(p as int).children.len());
            }
            n += 1;
        }
    }

    /// The nearest sibling after this node that is an element, skipping text
    /// and other nodes.
    pub fn next_sibling_element(&self) -> (node: Option<Self>)
        requires
            self.wf(),
        ensures
            node == self.at_opt(self.0.dom.element_after(self.0.id as int, 1)),
            node is Some ==> node->0.wf(),
    {
        let mut n: usize = 1;
        loop
            invariant
                self.wf(),
                n >= 1,
                self.0.dom.element_after(self.0.id as int, 1) == self.0.dom.element_after(
                    self.0.id as int,
                    n as int,
                ),
            decreases
                (match self.record().parent {
                    Some(p) => self.0.dom.record(p as int).children@.len()
                        - self.record().child_idx - n,
                    None => 0,
                }),
        {
            match self.forward(n) {
                Some(node) => {
                    if node.is_element() {
                        return Some(node);
                    }
                },
                None => { return None; },
            }
            proof {
                let p = self.record().parent->0;
                assert(self.0.dom.record(p as int).children@.len() == self.0.dom.record(p as int).children.len());
            }
            n += 1;
        }
    }

    /// The first child that is an element, skipping text and other nodes.
    pub fn first_element_child(&self) -> (node: Option<Self>)
        requires
            self.wf(),
        ensures
            node == self.at_opt(self.0.dom.element_among(self.record().children@, 0)),
            node is Some ==> node->0.wf(),
    {
        let mut children = self.traversal_children();
        loop
            invariant
                self.wf(),
                children.wf(),
                children.parent() == *self,
                children.position() <= self.record().children@.len(),
                self.0.dom.element_among(self.record().children@, 0)
                    == self.0.dom.element_among(
                    self.record().children@,
                    children.position() as int,
                ),
            decreases self.record().children@.len() - children.position(),
        {
            match children.next() {
                Some(child) => {
                    if child.is_element() {
                        return Some(child);
                    }
                },
                None => { return None; },
            }
        }
    }
}

} // verus!
