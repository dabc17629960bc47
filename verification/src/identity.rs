//! Equality of node handles: two handles are equal when they name the same
//! identity.

use crate::node::BlitzNode;
use vstd::prelude::*;

verus! {

impl<'a> PartialEq for BlitzNode<'a> {
    fn eq(&self, other: &Self) -> (same: bool) {
        self.0.id == other.0.id
    }
}

impl<'a> vstd::std_specs::cmp::PartialEqSpecImpl for BlitzNode<'a> {
    open spec fn obeys_eq_spec() -> bool {
        true
    }

    open spec fn eq_spec(&self, other: &Self) -> bool {
        self.0.id == other.0.id
    }
}

impl<'a> Eq for BlitzNode<'a> {

}

} // verus!
