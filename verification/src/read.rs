//! Read handles: per-reader entry points onto the read-side copy.

use vstd::prelude::*;
use std::sync::Arc;
use crate::cell::SharedCell;
use crate::factory::ReadHandleFactory;
use crate::guard::ReadGuard;
use crate::registry::EpochRegistry;

verus! {

/// A reader's handle: the shared cell, the shared epoch registry, and this
/// reader's own slot in it.
#[verifier::reject_recursive_types(T)]
pub struct ReadHandle<T> {
    pub(crate) cell: SharedCell<T>,
    pub(crate) epochs: EpochRegistry,
    epoch_i: usize,
}

impl<T> ReadHandle<T> {
    /// The set of values this handle may ever observe: what the cell's
    /// invariant admits.
    pub closed spec fn allowed(&self) -> Set<T> {
        self.cell.allowed()
    }

    /// A first handle onto a fresh cell holding `inner`.
    pub(crate) fn new(inner: Arc<T>, epochs: EpochRegistry, Ghost(allowed): Ghost<Set<T>>) -> (r:
        ReadHandle<T>)
        requires
            allowed.contains(*inner),
        ensures
            r.allowed() == allowed,
    {
        let cell = SharedCell::new(inner, Ghost(allowed));
        ReadHandle::new_with_arc(cell, epochs)
    }

    /// A handle onto an existing cell, claiming its own epoch slot.
    pub(crate) fn new_with_arc(cell: SharedCell<T>, epochs: EpochRegistry) -> (r: ReadHandle<T>)
        ensures
            r.allowed() == cell.allowed(),
    {
        let epoch_i = epochs.register();
        ReadHandle { cell, epochs, epoch_i }
    }

    /// The shared cell this handle reads.
    pub(crate) fn cell_ref(&self) -> (c: &SharedCell<T>)
        ensures
            c.allowed() == self.allowed(),
    {
        &self.cell
    }

    /// A detachable maker of further read handles onto the same pair.
    pub fn factory(&self) -> (f: ReadHandleFactory<T>)
        ensures
            f.allowed() == self.allowed(),
    {
        ReadHandleFactory::new(self.cell.duplicate(), self.epochs.duplicate())
    }

    /// Another read handle onto the same pair, with its own epoch slot.
    pub fn fork(&self) -> (r: ReadHandle<T>)
        ensures
            r.allowed() == self.allowed(),
    {
        ReadHandle::new_with_arc(self.cell.duplicate(), self.epochs.duplicate())
    }

    /// Enter a read critical section: flip this reader's epoch to odd and
    /// take a guard onto the current read-side copy. Returns `None`, with
    /// the epoch back at even, once the writer has been dismantled. The
    /// observed value always comes from this pair's allowed set.
    pub fn enter(&self) -> (r: Option<ReadGuard<T>>)
        ensures
            r matches Some(g) ==> self.allowed().contains(g@),
    {
        self.epochs.advance(self.epoch_i);
        match self.cell.load() {
            Some(current) => Some(ReadGuard::new(current, self.epochs.duplicate(), self.epoch_i)),
            None => {
                self.epochs.advance(self.epoch_i);
                None
            },
        }
    }

    /// Whether the writer has been dismantled.
    pub fn was_dropped(&self) -> bool {
        self.cell.load().is_none()
    }

    /// Give the handle up and free its registry slot. A handle that is
    /// merely dropped keeps its slot registered; the stale slot is
    /// harmless (its recorded epoch stays even) but never reused.
    pub fn retire(self) {
        let _ = self.epochs.unregister(self.epoch_i);
    }

    /// A counted handle onto the current read-side copy, without entering a
    /// critical section; `None` once the writer has been dismantled.
    pub fn raw_handle(&self) -> (r: Option<Arc<T>>)
        ensures
            r matches Some(a) ==> self.allowed().contains(*a),
    {
        self.cell.load()
    }
}

} // verus!
