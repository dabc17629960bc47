//! The per-node style slot: a cell that hands out shared or exclusive access to
//! the resolver's computed style data without ever blocking.

use atomic_refcell::{AtomicRef, AtomicRefCell, AtomicRefMut, BorrowError, BorrowMutError};
use style::data::ElementData;
use vstd::prelude::*;

verus! {

/// `atomic_refcell::AtomicRefCell`, opaque to the verifier.
#[verifier::external_type_specification]
#[verifier::external_body]
#[verifier::reject_recursive_types(T)]
pub struct ExAtomicRefCell<T: ?Sized>(AtomicRefCell<T>);

/// `atomic_refcell::AtomicRef`, the guard of a shared borrow.
#[verifier::external_type_specification]
#[verifier::external_body]
#[verifier::reject_recursive_types(T)]
pub struct ExAtomicRef<'b, T: ?Sized>(AtomicRef<'b, T>);

/// `atomic_refcell::AtomicRefMut`, the guard of an exclusive borrow.
#[verifier::external_type_specification]
#[verifier::external_body]
#[verifier::reject_recursive_types(T)]
pub struct ExAtomicRefMut<'b, T: ?Sized + 'b>(AtomicRefMut<'b, T>);

/// `atomic_refcell::BorrowError`, returned when a shared borrow is refused.
#[verifier::external_type_specification]
#[verifier::external_body]
pub struct ExBorrowError(BorrowError);

/// `atomic_refcell::BorrowMutError`, returned when an exclusive borrow is refused.
#[verifier::external_type_specification]
#[verifier::external_body]
pub struct ExBorrowMutError(BorrowMutError);

/// `style::data::ElementData`, the resolver's output for one element.
#[verifier::external_type_specification]
#[verifier::external_body]
pub struct ExElementData(ElementData);

/// Calls `AtomicRefCell::new` on `ElementData::default()`: a slot that nobody
/// has borrowed, holding empty style data. Nothing is claimed of the value.
#[verifier::external_body]
pub(crate) fn empty_slot() -> AtomicRefCell<ElementData> {
    AtomicRefCell::new(ElementData::default())
}

/// Calls `AtomicRefCell::try_borrow`. Whether the borrow is granted depends on
/// the guards that are alive at the moment of the call, so nothing is claimed
/// of the result. The call returns at once. It panics only once more than
/// `usize::MAX / 2` shared borrows of one cell are alive or leaked, and it
/// aborts the process only after that order of refused requests during one
/// exclusive borrow.
#[verifier::external_body]
pub(crate) fn try_shared<'a>(slot: &'a AtomicRefCell<ElementData>) -> Result<
    AtomicRef<'a, ElementData>,
    BorrowError,
> {
    slot.try_borrow()
}

/// Calls `AtomicRefCell::try_borrow_mut`. Whether the borrow is granted depends
/// on the guards that are alive at the moment of the call, so nothing is
/// claimed of the result. The call returns at once and never panics.
#[verifier::external_body]
pub(crate) fn try_exclusive<'a>(slot: &'a AtomicRefCell<ElementData>) -> Result<
    AtomicRefMut<'a, ElementData>,
    BorrowMutError,
> {
    slot.try_borrow_mut()
}

} // verus!
