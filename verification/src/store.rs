//! The slab that owns the node records, behind the contracts the arena needs.

use crate::record::NodeData;
use slab::Slab;
use vstd::prelude::*;

verus! {

/// `slab::Slab`, opaque to the verifier.
#[verifier::external_type_specification]
#[verifier::external_body]
#[verifier::reject_recursive_types(T)]
pub struct ExSlab<T>(Slab<T>);

/// The slots of a slab from key 0 upwards: `Some` for an occupied slot with the
/// value stored under that key, `None` for a vacant one.
pub uninterp spec fn slab_slots(slab: Slab<NodeData>) -> Seq<Option<NodeData>>;

/// The key that the slab will give to the next value inserted.
pub uninterp spec fn slab_next(slab: Slab<NodeData>) -> usize;

/// Calls `Slab::new`: a slab without slots, whose first key will be 0.
#[verifier::external_body]
pub(crate) fn slab_new() -> (slab: Slab<NodeData>)
    ensures
        slab_slots(slab) == Seq::<Option<NodeData>>::empty(),
        slab_next(slab) == 0,
{
    Slab::new()
}

/// Calls `Slab::vacant_key`: the key of the next insertion.
#[verifier::external_body]
pub(crate) fn slab_vacant_key(slab: &Slab<NodeData>) -> (key: usize)
    ensures
        key == slab_next(*slab),
{
    slab.vacant_key()
}

/// Calls `Slab::insert`. The value goes under the key that `vacant_key`
/// announced. Where that key is one past the last slot, a slot is appended and
/// the next key is the one after it; where it names a vacant slot, that slot is
/// filled and the others stay as they were. The call panics only where the
/// allocation would exceed `isize::MAX` bytes.
#[verifier::external_body]
pub(crate) fn slab_insert(slab: &mut Slab<NodeData>, record: NodeData) -> (key: usize)
    ensures
        key == slab_next(*old(slab)),
        key == slab_slots(*old(slab)).len() ==> slab_slots(*final(slab)) == slab_slots(
            *old(slab),
        ).push(Some(record)) && slab_next(*final(slab)) == key + 1,
        key < slab_slots(*old(slab)).len() ==> slab_slots(*final(slab)) == slab_slots(
            *old(slab),
        ).update(key as int, Some(record)),
{
    slab.insert(record)
}

/// Calls `Slab::index`, which panics on a key without a value: the record
/// stored under an occupied key.
#[verifier::external_body]
pub(crate) fn slab_index<'a>(slab: &'a Slab<NodeData>, key: usize) -> (record: &'a NodeData)
    requires
        key < slab_slots(*slab).len(),
        slab_slots(*slab)[key as int] is Some,
    ensures
        slab_slots(*slab)[key as int] == Some(*record),
{
    &slab[key]
}

/// Calls `Slab::index_mut`, which panics on a key without a value: exclusive
/// access to the record under an occupied key. What the caller leaves in the
/// record is what the slot holds afterwards; no other slot and no key changes.
#[verifier::external_body]
pub(crate) fn slab_index_mut(slab: &mut Slab<NodeData>, key: usize) -> (record: &mut NodeData)
    requires
        key < slab_slots(*old(slab)).len(),
        slab_slots(*old(slab))[key as int] is Some,
    ensures
        slab_slots(*old(slab))[key as int] == Some(*record),
        slab_slots(*final(slab)) == slab_slots(*old(slab)).update(
            key as int,
            Some(*final(record)),
        ),
        slab_next(*final(slab)) == slab_next(*old(slab)),
{
    &mut slab[key]
}

} // verus!
