//! The shared pointer cell: the one location through which the writer
//! publishes and every reader observes the current read-side copy.
//!
//! The cell holds an `Option<Arc<T>>` under a readers-writer lock: `Some`
//! while a write handle lives, `None` once the writer has been dismantled.
//! Readers take their own counted handle onto the current copy; the writer
//! replaces the contents wholesale at each publish. The lock's contents are
//! shared state, so no contract here relates two separate acquisitions;
//! what every acquisition does see is the cell's fixed invariant: only
//! values from the `allowed` set chosen when the pair was created are ever
//! inside.

use vstd::prelude::*;
use vstd::rwlock::RwLock;
use vstd::rwlock::RwLockPredicate;
use std::sync::Arc;
use crate::registry::arc_duplicate;

verus! {

/// The cell's invariant: whatever copy is inside comes from the `allowed`
/// set, fixed when the pair is created.
#[verifier::reject_recursive_types(T)]
pub struct CellPred<T> {
    pub allowed: Ghost<Set<T>>,
}

impl<T> RwLockPredicate<Option<Arc<T>>> for CellPred<T> {
    open spec fn inv(self, v: Option<Arc<T>>) -> bool {
        v matches Some(a) ==> self.allowed@.contains(*a)
    }
}

/// A shared cell holding the current read-side copy, or nothing once the
/// writer is gone.
#[verifier::reject_recursive_types(T)]
pub struct SharedCell<T> {
    lock: Arc<RwLock<Option<Arc<T>>, CellPred<T>>>,
}

impl<T> SharedCell<T> {
    /// The set of values this cell may ever hold.
    pub closed spec fn allowed(&self) -> Set<T> {
        (*self.lock).pred().allowed@
    }

    /// A fresh cell holding `initial`.
    pub(crate) fn new(initial: Arc<T>, Ghost(allowed): Ghost<Set<T>>) -> (c: SharedCell<T>)
        requires
            allowed.contains(*initial),
        ensures
            c.allowed() == allowed,
    {
        SharedCell {
            lock: Arc::new(
                RwLock::new(Some(initial), Ghost(CellPred { allowed: Ghost(allowed) })),
            ),
        }
    }

    /// Another handle onto the same cell.
    pub(crate) fn duplicate(&self) -> (c: SharedCell<T>)
        ensures
            c.allowed() == self.allowed(),
    {
        SharedCell { lock: arc_duplicate(&self.lock) }
    }

    /// The current contents: a counted handle onto the read-side copy, or
    /// `None` if the writer has been dismantled.
    pub(crate) fn load(&self) -> (r: Option<Arc<T>>)
        ensures
            r matches Some(a) ==> self.allowed().contains(*a),
    {
        let read_handle = self.lock.acquire_read();
        let loaded = match read_handle.borrow() {
            Some(a) => Some(arc_duplicate(a)),
            None => None,
        };
        read_handle.release_read();
        loaded
    }

    /// Replace the contents, returning what was there.
    pub(crate) fn replace(&self, new: Option<Arc<T>>) -> (r: Option<Arc<T>>)
        requires
            new matches Some(a) ==> self.allowed().contains(*a),
        ensures
            r matches Some(a) ==> self.allowed().contains(*a),
    {
        let (prev, write_handle) = self.lock.acquire_write();
        write_handle.release_write(new);
        prev
    }
}

/// Relies on Arc::try_unwrap: the writer's way of regaining sole ownership
/// of a copy it once shared. Retries until every other counted handle is
/// gone, so it blocks for as long as a straggling reader still holds one;
/// the writer waiting indefinitely for readers is the intended discipline.
#[verifier::external_body]
pub(crate) fn arc_claim<T>(a: Arc<T>) -> (t: T)
    ensures
        t == a,
{
    let mut cur = a;
    loop {
        match Arc::try_unwrap(cur) {
            Ok(t) => {
                return t;
            },
            Err(back) => {
                cur = back;
            },
        }
    }
}

} // verus!
