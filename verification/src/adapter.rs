//! What the style resolver needs of a node besides navigation: the style slot,
//! the two flags that drive its work-skipping, and the layout identifier.

use crate::node::BlitzNode;
use crate::slot::{try_exclusive, try_shared};
use atomic_refcell::{AtomicRef, AtomicRefMut, BorrowError, BorrowMutError};
use style::data::ElementData;
use vstd::prelude::*;

verus! {

/// What a shared borrow request hands to the caller: the guard if the borrow
/// was granted, none if it was refused.
pub fn shared_or_none<'a>(outcome: Result<AtomicRef<'a, ElementData>, BorrowError>) -> (guard:
    Option<AtomicRef<'a, ElementData>>)
    ensures
        outcome is Ok ==> guard == Some(outcome->Ok_0),
        outcome is Err ==> guard is None,
{
    match outcome {
        Ok(guard) => Some(guard),
        Err(_) => None,
    }
}

/// What an exclusive borrow request hands to the caller: the guard if the
/// borrow was granted, none if it was refused.
pub fn exclusive_or_none<'a>(
    outcome: Result<AtomicRefMut<'a, ElementData>, BorrowMutError>,
) -> (guard: Option<AtomicRefMut<'a, ElementData>>)
    ensures
        outcome is Ok ==> guard == Some(outcome->Ok_0),
        outcome is Err ==> guard is None,
{
    match outcome {
        Ok(guard) => Some(guard),
        Err(_) => None,
    }
}

impl<'a> BlitzNode<'a> {
    /// Asks for shared read access to this node's style data. The request
    /// never waits: it is refused at once, with none, while a writer holds the
    /// slot. Any number of readers may hold the slot together.
    pub fn borrow_data(&self) -> (guard: Option<AtomicRef<'a, ElementData>>)
        requires
            self.wf(),
    {
        shared_or_none(try_shared(&self.data().style))
    }

    /// Asks for exclusive write access to this node's style data. The request
    /// never waits: it is refused at once, with none, while any reader or
    /// writer holds the slot. Other nodes' slots are not affected.
    pub fn mutate_data(&self) -> (guard: Option<AtomicRefMut<'a, ElementData>>)
        requires
            self.wf(),
    {
        exclusive_or_none(try_exclusive(&self.data().style))
    }

    /// The identifier that the layout engine assigned to this node, if any.
    pub fn layout_id(&self) -> (layout_id: Option<u64>)
        requires
            self.wf(),
        ensures
            layout_id == self.record().layout_id,
    {
        self.data().layout_id
    }

    /// Whether this node is the one the document's body styles apply to: the
    /// node with identity 0.
    pub fn is_html_document_body_element(&self) -> (b: bool)
        ensures
            b == (self.0.id == 0),
    {
        self.0.id == 0
    }
}

} // verus!
