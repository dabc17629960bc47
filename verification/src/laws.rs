//! What holds of every built document, stated over the document's records.

use crate::arena::placed;
use crate::dom::{linked, RealDom};
use crate::record::NodeData;
use crate::tree::{forest_count, forest_preorder, node_count, preorder, PayloadView, TreeView};
use vstd::prelude::*;

verus! {

impl RealDom {
    /// The identities that the records of the document carry.
    pub open spec fn identities(&self) -> Set<int> {
        Set::new(|id: int| exists|i: int| 0 <= i < self.count() && (#[trigger] self.record(i)).id == id)
    }

    /// The node reached from `id` by `steps` moves to the next sibling, or
    /// none once a move has left the sibling list.
    pub open spec fn nth_next_sibling(&self, id: usize, steps: nat) -> Option<usize>
        decreases steps,
    {
        if steps == 0 {
            Some(id)
        } else {
            match self.nth_next_sibling(id, (steps - 1) as nat) {
                Some(at) => self.sibling(at as int, 1),
                None => None,
            }
        }
    }

    /// The identities met by a pre-order walk from `id` that visits each
    /// node's children in the order of its child list.
    pub open spec fn walk(&self, id: int) -> Seq<usize>
        decreases self.count() - id, self.record(id).children@.len() + 1,
    {
        if 0 <= id < self.count() {
            seq![id as usize] + self.walk_children(id, self.record(id).children@.len() as int)
        } else {
            Seq::empty()
        }
    }

    /// The identities met by walking the first `upto` children of `id`, one
    /// subtree after the other.
    pub open spec fn walk_children(&self, id: int, upto: int) -> Seq<usize>
        decreases self.count() - id, upto,
    {
        if 0 <= id < self.count() && 0 < upto <= self.record(id).children@.len() {
            let child = self.record(id).children@[upto - 1];
            if id < child < self.count() {
                self.walk_children(id, upto - 1) + self.walk(child as int)
            } else {
                self.walk_children(id, upto - 1)
            }
        } else {
            Seq::empty()
        }
    }

    /// The payloads of the nodes in `ids`, in the same order.
    pub open spec fn payloads(&self, ids: Seq<usize>) -> Seq<PayloadView> {
        Seq::new(ids.len(), |k: int| self.record(ids[k] as int).node@)
    }
}

/// Identity density: the identities of a document with `n` nodes are exactly
/// the integers from 0 to `n - 1`, and the record under each key carries that
/// key as its identity.
pub proof fn law_identity_density(dom: RealDom)
    requires
        dom.wf(),
    ensures
        dom.identities() =~= Set::new(|id: int| 0 <= id < dom.count()),
        forall|i: int| 0 <= i < dom.count() ==> (#[trigger] dom.record(i)).id == i,
{
    assert forall|i: int| 0 <= i < dom.count() implies (#[trigger] dom.record(i)).id == i by {
        assert(linked(dom.slots(), i));
    }
    assert forall|id: int| 0 <= id < dom.count() implies dom.identities().contains(id) by {
        assert(dom.record(id).id == id);
    }
}

/// Structural consistency: the parent of every node but the root lists the
/// node in its child list at the position that the node records, and the root
/// is the one node without a parent.
pub proof fn law_structural_consistency(dom: RealDom, id: int)
    requires
        dom.wf(),
        0 <= id < dom.count(),
    ensures
        dom.record(id).parent is None <==> id == 0,
        dom.record(id).parent matches Some(p) ==> {
            &&& p < dom.count()
            &&& dom.record(id).child_idx < dom.record(p as int).children@.len()
            &&& dom.record(p as int).children@[dom.record(id).child_idx as int] == dom.record(
                id,
            ).id
        },
{
    assert(linked(dom.slots(), id));
}

/// Sibling round trip: starting at the first child of a node with `k`
/// children, `m` moves to the next sibling reach the child at position `m`
/// for every `m < k`, the `k`-th move finds none, and the children met are
/// all different.
pub proof fn law_sibling_round_trip(dom: RealDom, parent: int, m: nat)
    requires
        dom.wf(),
        0 <= parent < dom.count(),
        dom.record(parent).children@.len() > 0,
        m <= dom.record(parent).children@.len(),
    ensures
        m < dom.record(parent).children@.len() ==> dom.nth_next_sibling(
            dom.record(parent).children@[0],
            m,
        ) == Some(dom.record(parent).children@[m as int]),
        m == dom.record(parent).children@.len() ==> dom.nth_next_sibling(
            dom.record(parent).children@[0],
            m,
        ) is None,
        forall|a: int, b: int|
            0 <= a < b < dom.record(parent).children@.len() ==> dom.record(parent).children@[a]
                != dom.record(parent).children@[b],
    decreases m,
{
    let kids = dom.record(parent).children@;
    assert(linked(dom.slots(), parent));
    assert forall|a: int, b: int| 0 <= a < b < kids.len() implies kids[a] != kids[b] by {
        assert(dom.record(kids[a] as int).child_idx == a);
        assert(dom.record(kids[b] as int).child_idx == b);
    }
    if m > 0 {
        law_sibling_round_trip(dom, parent, (m - 1) as nat);
        let at = kids[m - 1];
        assert(dom.record(at as int).parent == Some(parent as usize));
        assert(dom.record(at as int).child_idx == m - 1);
    }
}

/// A walk of a placed subtree meets the identities `id`, `id + 1`, ... in
/// increasing order, and the payloads along it are the pre-order listing of
/// the parsed subtree.
pub proof fn lemma_walk_placed(dom: RealDom, id: int, node: TreeView, idx: int, parent: Option<usize>)
    requires
        placed(dom.slots(), id, node, idx, parent),
    ensures
        dom.walk(id).len() == node_count(node),
        forall|k: int| 0 <= k < node_count(node) ==> #[trigger] dom.walk(id)[k] == id + k,
        dom.payloads(dom.walk(id)) == preorder(node),
    decreases node, node.children.len() + 1,
{
    let kids = node.children;
    lemma_walk_children_placed(dom, id, node, idx, parent, kids.len() as int);
    let rest = dom.walk_children(id, kids.len() as int);
    assert(dom.walk(id) == seq![id as usize] + rest);
    assert(dom.payloads(dom.walk(id)) =~= seq![node.data] + dom.payloads(rest));
}

/// The walk of the first `upto` children of a placed node meets the
/// identities after the node's own in increasing order, and the payloads
/// along it are the pre-order listing of the first `upto` parsed children.
pub proof fn lemma_walk_children_placed(
    dom: RealDom,
    id: int,
    node: TreeView,
    idx: int,
    parent: Option<usize>,
    upto: int,
)
    requires
        placed(dom.slots(), id, node, idx, parent),
        0 <= upto <= node.children.len(),
    ensures
        dom.walk_children(id, upto).len() == forest_count(node.children, upto),
        forall|k: int|
            0 <= k < forest_count(node.children, upto) ==> #[trigger] dom.walk_children(
                id,
                upto,
            )[k] == id + 1 + k,
        dom.payloads(dom.walk_children(id, upto)) == forest_preorder(node.children, upto),
    decreases node, upto,
{
    let kids = node.children;
    if upto > 0 {
        lemma_walk_children_placed(dom, id, node, idx, parent, upto - 1);
        let child = id + 1 + forest_count(kids, upto - 1);
        assert(dom.record(id).children@[upto - 1] == child);
        assert(placed(dom.slots(), child, kids[upto - 1], upto - 1, Some(id as usize)));
        lemma_walk_placed(dom, child, kids[upto - 1], upto - 1, Some(id as usize));
        let before = dom.walk_children(id, upto - 1);
        let here = dom.walk(child);
        assert(dom.walk_children(id, upto) == before + here);
        assert(dom.payloads(before + here) =~= dom.payloads(before) + dom.payloads(here));
    } else {
        assert(dom.payloads(dom.walk_children(id, upto)) =~= Seq::<PayloadView>::empty());
    }
}

/// Document-order preservation: in a document built from `tree`, the
/// pre-order walk from the root over the child lists meets the identities 0,
/// 1, 2, ... in this order, one per parsed node, and the payloads it meets
/// are those of a pre-order walk of `tree`.
pub proof fn law_document_order(dom: RealDom, tree: TreeView)
    requires
        dom.mirrors(tree),
    ensures
        dom.walk(0).len() == dom.count(),
        forall|k: int| 0 <= k < dom.count() ==> #[trigger] dom.walk(0)[k] == k,
        dom.payloads(dom.walk(0)) == preorder(tree),
{
    lemma_walk_placed(dom, 0, tree, 0, None);
}

/// Nearest element after a node: where `element_after(id, n)` names a
/// sibling, that sibling is an element, it lies `k >= n` places after the
/// node, and every sibling from `n` up to it is no element; where it names
/// none, no sibling `n` or more places after the node is an element. The
/// place `k` is handed back.
pub proof fn law_element_after(dom: RealDom, id: int, n: int) -> (k: int)
    requires
        dom.wf(),
        0 <= id < dom.count(),
        0 <= n,
    ensures
        dom.element_after(id, n) matches Some(s) ==> {
            &&& n <= k
            &&& dom.sibling(id, k) == Some(s)
            &&& dom.element_at(s as int)
            &&& forall|m: int|
                n <= m < k ==> (#[trigger] dom.sibling(id, m)) is Some && !dom.element_at(
                    dom.sibling(id, m)->0 as int,
                )
        },
        dom.element_after(id, n) is None ==> forall|m: int|
            n <= m ==> ((#[trigger] dom.sibling(id, m)) matches Some(s) ==> !dom.element_at(
                s as int,
            )),
    decreases
        (match dom.record(id).parent {
            Some(p) => dom.record(p as int).children@.len() - dom.record(id).child_idx - n,
            None => 0,
        }),
{
    match dom.sibling(id, n) {
        None => n,
        Some(s) => {
            if dom.element_at(s as int) {
                n
            } else {
                let k = law_element_after(dom, id, n + 1);
                if dom.element_after(id, n + 1) is Some {
                    assert forall|m: int| n <= m < k implies (#[trigger] dom.sibling(id, m))
                        is Some && !dom.element_at(dom.sibling(id, m)->0 as int) by {
                        if m > n {
                            assert(n + 1 <= m);
                        }
                    }
                } else {
                    assert forall|m: int| n <= m implies ((#[trigger] dom.sibling(
                        id,
                        m,
                    )) matches Some(s) ==> !dom.element_at(s as int)) by {
                        if m > n {
                            assert(n + 1 <= m);
                        }
                    }
                }
                k
            }
        },
    }
}

/// Nearest element before a node: where `element_before(id, n)` names a
/// sibling, that sibling is an element, it lies `k >= n` places before the
/// node, and every sibling from `n` back to it is no element; where it names
/// none, no sibling `n` or more places before the node is an element. The
/// place `k` is handed back.
pub proof fn law_element_before(dom: RealDom, id: int, n: int) -> (k: int)
    requires
        dom.wf(),
        0 <= id < dom.count(),
        0 <= n,
    ensures
        dom.element_before(id, n) matches Some(s) ==> {
            &&& n <= k
            &&& dom.sibling(id, -k) == Some(s)
            &&& dom.element_at(s as int)
            &&& forall|m: int|
                n <= m < k ==> (#[trigger] dom.sibling(id, -m)) is Some && !dom.element_at(
                    dom.sibling(id, -m)->0 as int,
                )
        },
        dom.element_before(id, n) is None ==> forall|m: int|
            n <= m ==> ((#[trigger] dom.sibling(id, -m)) matches Some(s) ==> !dom.element_at(
                s as int,
            )),
    decreases dom.record(id).child_idx - n + 1,
{
    assert(linked(dom.slots(), id));
    match dom.sibling(id, -n) {
        None => n,
        Some(s) => {
            if dom.element_at(s as int) {
                n
            } else {
                let k = law_element_before(dom, id, n + 1);
                if dom.element_before(id, n + 1) is Some {
                    assert forall|m: int| n <= m < k implies (#[trigger] dom.sibling(id, -m))
                        is Some && !dom.element_at(dom.sibling(id, -m)->0 as int) by {
                        if m > n {
                            assert(n + 1 <= m);
                        }
                    }
                } else {
                    assert forall|m: int| n <= m implies ((#[trigger] dom.sibling(
                        id,
                        -m,
                    )) matches Some(s) ==> !dom.element_at(s as int)) by {
                        if m > n {
                            assert(n + 1 <= m);
                        }
                    }
                }
                k
            }
        },
    }
}

/// First element of a child list: where `element_among(kids, from)` names a
/// node, that node is an element, it stands at a place `k >= from` of `kids`,
/// and no node from `from` up to it is an element; where it names none, no
/// node of `kids` from `from` on is an element. The place `k` is handed back.
pub proof fn law_element_among(dom: RealDom, kids: Seq<usize>, from: int) -> (k: int)
    requires
        0 <= from,
    ensures
        dom.element_among(kids, from) matches Some(s) ==> {
            &&& from <= k < kids.len()
            &&& kids[k] == s
            &&& dom.element_at(s as int)
            &&& forall|m: int| from <= m < k ==> !dom.element_at((#[trigger] kids[m]) as int)
        },
        dom.element_among(kids, from) is None ==> forall|m: int|
            from <= m < kids.len() ==> !dom.element_at((#[trigger] kids[m]) as int),
    decreases kids.len() - from,
{
    if from < kids.len() {
        if dom.element_at(kids[from] as int) {
            from
        } else {
            let k = law_element_among(dom, kids, from + 1);
            if dom.element_among(kids, from + 1) is Some {
                assert forall|m: int| from <= m < k implies !dom.element_at(
                    (#[trigger] kids[m]) as int,
                ) by {
                    if m > from {
                        assert(from + 1 <= m);
                    }
                }
            } else {
                assert forall|m: int| from <= m < kids.len() implies !dom.element_at(
                    (#[trigger] kids[m]) as int,
                ) by {
                    if m > from {
                        assert(from + 1 <= m);
                    }
                }
            }
            k
        }
    } else {
        from
    }
}

} // verus!
