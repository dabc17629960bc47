//! The document: the arena of node records and what holds of it once built.

use crate::arena::{compact, fill_slab_with_handles, lemma_placed_frame, placed, same_shape};
use crate::markup::{parse, parsed_markup, ParseError};
use crate::record::NodeData;
use crate::store::{slab_index_mut, slab_new, slab_slots, slab_vacant_key};
use crate::tree::{forest_count, node_count, ParsedNode, TreeView};
use slab::Slab;
use style::shared_lock::SharedRwLock;
use vstd::prelude::*;

verus! {

/// `style::shared_lock::SharedRwLock`, opaque to the verifier.
#[verifier::external_type_specification]
#[verifier::external_body]
pub struct ExSharedRwLock(SharedRwLock);

/// Calls `SharedRwLock::new`: a fresh lock for the document's style sheets.
/// Nothing is claimed of it.
#[verifier::external_body]
fn new_guard() -> SharedRwLock {
    SharedRwLock::new()
}

/// The whole document: every node's record under its identity.
pub struct RealDom {
    /// The node records, keyed by identity.
    pub nodes: Slab<NodeData>,
    /// The lock that guards the document's style sheets.
    pub guard: SharedRwLock,
}

/// The record under `i` names itself, and each child it lists lies after it,
/// names it as parent and knows its own position in the list.
pub open spec fn links_down(slots: Seq<Option<NodeData>>, i: int) -> bool {
    &&& slots[i]->0.id == i
    &&& forall|j: int|
        0 <= j < slots[i]->0.children@.len() ==> {
            &&& i < (#[trigger] slots[i]->0.children@[j]) < slots.len()
            &&& slots[slots[i]->0.children@[j] as int]->0.parent == Some(i as usize)
            &&& slots[slots[i]->0.children@[j] as int]->0.child_idx == j
        }
}

/// The record under `i` has no parent exactly if it is the root; otherwise its
/// parent lies before it and lists it at the position the record names.
pub open spec fn links_up(slots: Seq<Option<NodeData>>, i: int) -> bool {
    match slots[i]->0.parent {
        None => i == 0,
        Some(p) => {
            &&& p < i
            &&& slots[i]->0.child_idx < slots[p as int]->0.children@.len()
            &&& slots[p as int]->0.children@[slots[i]->0.child_idx as int] == i
        },
    }
}

/// Both directions of the structure hold at `i`.
pub open spec fn linked(slots: Seq<Option<NodeData>>, i: int) -> bool {
    links_down(slots, i) && links_up(slots, i)
}

impl RealDom {
    /// The slots of the arena, each holding the record of one node.
    pub open spec fn slots(&self) -> Seq<Option<NodeData>> {
        slab_slots(self.nodes)
    }

    /// Number of nodes in the document.
    pub open spec fn count(&self) -> nat {
        self.slots().len()
    }

    /// The record of the node with identity `id`.
    pub open spec fn record(&self, id: int) -> NodeData {
        self.slots()[id]->0
    }

    /// The invariant of a built document. Identities are exactly the keys
    /// `0..count`, identity 0 is the root and has no parent, and for every node
    /// the parent's child list holds the node at the node's own position.
    pub open spec fn wf(&self) -> bool {
        &&& compact(self.nodes)
        &&& self.count() > 0
        &&& forall|i: int| 0 <= i < self.count() ==> #[trigger] linked(self.slots(), i)
    }

    /// The document was built from `tree`: it has one record per parsed node,
    /// laid out in pre-order from identity 0.
    pub open spec fn mirrors(&self, tree: TreeView) -> bool {
        &&& self.count() == node_count(tree)
        &&& placed(self.slots(), 0, tree, 0, None)
    }

    /// Parses `html` and builds the arena from the document tree. Where the
    /// markup cannot be read there is no document.
    pub fn new(html: String) -> (outcome: Result<RealDom, ParseError>)
        ensures
            parsed_markup(html@) matches Some(tree) ==> {
                &&& outcome matches Ok(dom)
                &&& dom.wf()
                &&& dom.mirrors(tree)
                &&& forall|i: int|
                    0 <= i < dom.count() ==> (#[trigger] dom.record(i)).layout_id is None
            },
            parsed_markup(html@) is None ==> outcome matches Err(ParseError::Unreadable),
    {
        match parse(html.as_str()) {
            Ok(tree) => Ok(RealDom::from_tree(tree)),
            Err(error) => Err(error),
        }
    }

    /// Builds the arena from a parsed tree in a single depth-first pass. The
    /// root of the tree receives identity 0 and no node has a layout
    /// identifier yet.
    pub fn from_tree(tree: ParsedNode) -> (dom: RealDom)
        ensures
            dom.wf(),
            dom.mirrors(tree@),
            forall|i: int| 0 <= i < dom.count() ==> (#[trigger] dom.record(i)).layout_id is None,
    {
        let mut nodes = slab_new();
        fill_slab_with_handles(&mut nodes, tree, 0, None);
        let dom = RealDom { nodes, guard: new_guard() };
        proof {
            assert forall|i: int| 0 <= i < dom.count() implies #[trigger] linked(
                dom.slots(),
                i,
            ) by {
                lemma_placed_links(dom.slots(), 0, tree@, 0, None, i);
            }
        }
        dom
    }

    /// Number of nodes in the document.
    pub fn len(&self) -> (n: usize)
        requires
            self.wf(),
        ensures
            n == self.count(),
    {
        slab_vacant_key(&self.nodes)
    }

    /// Stores the identifier that the layout engine assigned to the node `id`,
    /// or clears it. Nothing else in the document changes.
    pub fn set_layout_id(&mut self, id: usize, layout_id: Option<u64>)
        requires
            old(self).wf(),
            id < old(self).count(),
        ensures
            final(self).wf(),
            final(self).count() == old(self).count(),
            final(self).record(id as int) == (NodeData {
                layout_id,
                ..old(self).record(id as int)
            }),
            forall|i: int|
                0 <= i < old(self).count() && i != id ==> #[trigger] final(self).slots()[i] == old(
                    self,
                ).slots()[i],
            forall|tree: TreeView| old(self).mirrors(tree) ==> final(self).mirrors(tree),
    {
        let ghost before = self.slots();
        let record = slab_index_mut(&mut self.nodes, id);
        record.layout_id = layout_id;
        proof {
            let after = self.slots();
            assert forall|i: int| 0 <= i < after.len() implies same_shape(
                #[trigger] after[i],
                before[i],
            ) by {
                assert(linked(before, i));
            }
            assert forall|i: int| 0 <= i < self.count() implies #[trigger] linked(after, i) by {
                assert(linked(before, i));
                assert(same_shape(after[i], before[i]));
                assert forall|j: int| 0 <= j < after[i]->0.children@.len() implies same_shape(
                    after[(#[trigger] after[i]->0.children@[j]) as int],
                    before[after[i]->0.children@[j] as int],
                ) by {}
                if after[i]->0.parent is Some {
                    assert(same_shape(
                        after[after[i]->0.parent->0 as int],
                        before[after[i]->0.parent->0 as int],
                    ));
                }
            }
            assert forall|tree: TreeView| old(self).mirrors(tree) implies self.mirrors(
                tree,
            ) by {
                lemma_placed_frame(before, after, 0, tree, 0, None);
            }
        }
    }
}

/// Among the first `upto` trees of a forest, finds the one whose pre-order
/// range holds the offset `off`.
pub proof fn lemma_find_tree(nodes: Seq<TreeView>, upto: int, off: int) -> (j: int)
    requires
        0 <= upto <= nodes.len(),
        0 <= off < forest_count(nodes, upto),
    ensures
        0 <= j < upto,
        forest_count(nodes, j) <= off < forest_count(nodes, j) + node_count(nodes[j]),
    decreases upto,
{
    if off >= forest_count(nodes, upto - 1) {
        upto - 1
    } else {
        lemma_find_tree(nodes, upto - 1, off)
    }
}

/// In a placed subtree every record is linked to its children, and every
/// record but the subtree's root is linked to its parent.
pub proof fn lemma_placed_links(
    slots: Seq<Option<NodeData>>,
    id: int,
    node: TreeView,
    idx: int,
    parent: Option<usize>,
    i: int,
)
    requires
        placed(slots, id, node, idx, parent),
        id <= i < id + node_count(node),
    ensures
        slots[i] is Some,
        links_down(slots, i),
        i == id ==> slots[i]->0.parent == parent && slots[i]->0.child_idx == idx,
        i > id ==> links_up(slots, i) && slots[i]->0.parent is Some
            && slots[i]->0.parent->0 >= id,
        parent is None && id == 0 ==> links_up(slots, i),
    decreases node,
{
    let kids = node.children;
    if i == id {
        assert forall|j: int| 0 <= j < slots[i]->0.children@.len() implies {
            &&& i < (#[trigger] slots[i]->0.children@[j]) < slots.len()
            &&& slots[slots[i]->0.children@[j] as int]->0.parent == Some(i as usize)
            &&& slots[slots[i]->0.children@[j] as int]->0.child_idx == j
        } by {
            let c = id + 1 + forest_count(kids, j);
            assert(placed(slots, c, kids[j], j, Some(id as usize)));
        }
    } else {
        let j = lemma_find_tree(kids, kids.len() as int, i - id - 1);
        let c = id + 1 + forest_count(kids, j);
        assert(placed(slots, c, kids[j], j, Some(id as usize)));
        lemma_placed_links(slots, c, kids[j], j, Some(id as usize), i);
    }
}

} // verus!
