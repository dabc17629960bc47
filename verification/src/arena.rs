//! Building the arena: one pass over the parsed tree that gives every node its
//! identity and records parent, position and children.

use crate::record::NodeData;
use crate::slot::empty_slot;
use crate::store::{slab_index_mut, slab_insert, slab_next, slab_slots, slab_vacant_key};
use crate::tree::{forest_count, lemma_forest_count_monotone, node_count, ParsedNode, TreeView};
use slab::Slab;
use std::sync::atomic::AtomicBool;
use vstd::prelude::*;

verus! {

/// Every slot holds a record and the next key is one past the last slot: the
/// state of a slab that has only ever grown.
pub open spec fn compact(slab: Slab<NodeData>) -> bool {
    &&& slab_next(slab) == slab_slots(slab).len()
    &&& forall|i: int| 0 <= i < slab_slots(slab).len() ==> (#[trigger] slab_slots(slab)[i]) is Some
}

/// The tree `node` occupies the slots from `id` on in pre-order: the record
/// under `id` carries the root's payload, names `parent` and `idx` as its place,
/// and lists one child per child of the root, each placed right after its elder
/// siblings' subtrees.
pub open spec fn placed(
    slots: Seq<Option<NodeData>>,
    id: int,
    node: TreeView,
    idx: int,
    parent: Option<usize>,
) -> bool
    decreases node,
{
    &&& 0 <= id
    &&& id + node_count(node) <= slots.len()
    &&& slots[id] is Some
    &&& slots[id]->0.id == id
    &&& slots[id]->0.parent == parent
    &&& slots[id]->0.child_idx == idx
    &&& slots[id]->0.node@ == node.data
    &&& slots[id]->0.children@.len() == node.children.len()
    &&& forall|j: int|
        0 <= j < node.children.len() ==> {
            &&& slots[id]->0.children@[j] == id + 1 + #[trigger] forest_count(node.children, j)
            &&& placed(
                slots,
                id + 1 + forest_count(node.children, j),
                node.children[j],
                j,
                Some(id as usize),
            )
        }
}

/// Two slots hold records with the same structural fields: identity, parent,
/// position, children and payload.
pub open spec fn same_shape(a: Option<NodeData>, b: Option<NodeData>) -> bool {
    &&& a is Some
    &&& b is Some
    &&& a->0.id == b->0.id
    &&& a->0.parent == b->0.parent
    &&& a->0.child_idx == b->0.child_idx
    &&& a->0.children == b->0.children
    &&& a->0.node@ == b->0.node@
}

/// A placed subtree stays placed in any slab whose records have the same
/// structural fields on the slots that the subtree occupies.
pub proof fn lemma_placed_frame(
    before: Seq<Option<NodeData>>,
    after: Seq<Option<NodeData>>,
    id: int,
    node: TreeView,
    idx: int,
    parent: Option<usize>,
)
    requires
        placed(before, id, node, idx, parent),
        id + node_count(node) <= after.len(),
        forall|i: int|
            id <= i < id + node_count(node) ==> same_shape(#[trigger] after[i], before[i]),
    ensures
        placed(after, id, node, idx, parent),
    decreases node,
{
    assert(same_shape(after[id], before[id]));
    assert forall|j: int| 0 <= j < node.children.len() implies {
        &&& after[id]->0.children@[j] == id + 1 + #[trigger] forest_count(node.children, j)
        &&& placed(
            after,
            id + 1 + forest_count(node.children, j),
            node.children[j],
            j,
            Some(id as usize),
        )
    } by {
        lemma_forest_count_monotone(node.children, j, node.children.len() as int);
        lemma_placed_frame(
            before,
            after,
            id + 1 + forest_count(node.children, j),
            node.children[j],
            j,
            Some(id as usize),
        );
    }
}

/// Assigns identities to `node` and its descendants by walking the tree and
/// pushing a record for each into the slab. Returns the identity of `node`.
///
/// A node's slot is reserved before its children are visited, so identities
/// follow document order; the children's identities come back from the
/// recursive calls and are written into the node's record at the end.
pub fn fill_slab_with_handles(
    slab: &mut Slab<NodeData>,
    node: ParsedNode,
    child_index: usize,
    parent: Option<usize>,
) -> (id: usize)
    requires
        compact(*old(slab)),
    ensures
        id == slab_slots(*old(slab)).len(),
        compact(*final(slab)),
        slab_slots(*final(slab)).len() == slab_slots(*old(slab)).len() + node_count(node@),
        forall|i: int|
            0 <= i < slab_slots(*old(slab)).len() ==> #[trigger] slab_slots(*final(slab))[i]
                == slab_slots(*old(slab))[i],
        placed(slab_slots(*final(slab)), id as int, node@, child_index as int, parent),
        forall|i: int|
            id <= i < slab_slots(*final(slab)).len() ==> (#[trigger] slab_slots(
                *final(slab),
            )[i])->0.layout_id is None,
    decreases node,
{
    let ghost entry = slab_slots(*slab);
    let ghost sources = node@.children;
    let ghost parsed = node.children@;
    proof {
        assert(sources.len() == parsed.len());
        assert forall|j: int| 0 <= j < parsed.len() implies (#[trigger] parsed[j])@ == sources[j] by {}
    }
    let ParsedNode { data, children } = node;
    // Reserve an entry
    let id = slab_vacant_key(slab);
    let record = NodeData {
        id,
        style: empty_slot(),
        child_idx: child_index,
        children: Vec::new(),
        node: data,
        layout_id: None,
        parent,
        dirty_descendants: AtomicBool::new(false),
        has_style_data: AtomicBool::new(false),
    };
    let ghost reserved = record;
    let key = slab_insert(slab, record);
    assert(key == id);

    // Now go insert the children. Their identities come back here so that the
    // record knows how to walk them.
    let count = children.len();
    let mut kids: Vec<usize> = Vec::new();
    let mut idx: usize = 0;
    for child in it: children
        invariant
            sources.len() == count,
            it.seq() == parsed,
            parsed.len() == sources.len(),
            forall|j: int| 0 <= j < parsed.len() ==> (#[trigger] parsed[j])@ == sources[j],
            idx == it.index(),
            kids@.len() == idx,
            id == entry.len(),
            compact(*slab),
            slab_slots(*slab).len() == id + 1 + forest_count(sources, idx as int),
            forall|i: int| 0 <= i < id ==> #[trigger] slab_slots(*slab)[i] == entry[i],
            slab_slots(*slab)[id as int] == Some(reserved),
            reserved.layout_id is None,
            forall|i: int|
                id <= i < slab_slots(*slab).len() ==> (#[trigger] slab_slots(
                    *slab,
                )[i])->0.layout_id is None,
            forall|j: int|
                0 <= j < idx ==> {
                    &&& (#[trigger] kids@[j]) == id + 1 + forest_count(sources, j)
                    &&& placed(slab_slots(*slab), kids@[j] as int, sources[j], j, Some(id))
                },
            sources == node@.children,
            parsed == node.children@,
    {
        let ghost before = slab_slots(*slab);
        let kid = fill_slab_with_handles(slab, child, idx, Some(id));
        proof {
            let after = slab_slots(*slab);
            assert forall|j: int| 0 <= j < idx implies placed(
                after,
                #[trigger] kids@[j] as int,
                sources[j],
                j,
                Some(id),
            ) by {
                lemma_forest_count_monotone(sources, j, idx as int);
                lemma_placed_frame(before, after, kids@[j] as int, sources[j], j, Some(id));
            }
            assert(after[id as int] == before[id as int]);
        }
        kids.push(kid);
        assert(idx < count);
        idx += 1;
    }
    let ghost filled = slab_slots(*slab);
    let record = slab_index_mut(slab, id);
    record.children = kids;
    proof {
        let done = slab_slots(*slab);
        assert(done[id as int]->0.children == kids);
        assert forall|j: int| 0 <= j < sources.len() implies {
            &&& done[id as int]->0.children@[j] == id + 1 + #[trigger] forest_count(sources, j)
            &&& placed(done, id + 1 + forest_count(sources, j), sources[j], j, Some(id))
        } by {
            lemma_forest_count_monotone(sources, j, sources.len() as int);
            lemma_placed_frame(filled, done, kids@[j] as int, sources[j], j, Some(id));
        }
    }
    id
}

} // verus!
