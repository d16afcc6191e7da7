//! A detachable maker of read handles.

use vstd::prelude::*;
use crate::cell::SharedCell;
use crate::read::ReadHandle;
use crate::registry::EpochRegistry;

verus! {

/// Makes new read handles onto an existing pair, without reference to any
/// existing read handle.
#[verifier::reject_recursive_types(T)]
pub struct ReadHandleFactory<T> {
    cell: SharedCell<T>,
    epochs: EpochRegistry,
}

impl<T> ReadHandleFactory<T> {
    /// The set of values handles made here may ever observe.
    pub closed spec fn allowed(&self) -> Set<T> {
        self.cell.allowed()
    }

    pub(crate) fn new(cell: SharedCell<T>, epochs: EpochRegistry) -> (f: ReadHandleFactory<T>)
        ensures
            f.allowed() == cell.allowed(),
    {
        ReadHandleFactory { cell, epochs }
    }

    /// Another factory onto the same pair.
    pub fn duplicate(&self) -> (f: ReadHandleFactory<T>)
        ensures
            f.allowed() == self.allowed(),
    {
        ReadHandleFactory { cell: self.cell.duplicate(), epochs: self.epochs.duplicate() }
    }

    /// A new read handle, with its own epoch slot.
    pub fn handle(&self) -> (r: ReadHandle<T>)
        ensures
            r.allowed() == self.allowed(),
    {
        ReadHandle::new_with_arc(self.cell.duplicate(), self.epochs.duplicate())
    }
}

} // verus!
