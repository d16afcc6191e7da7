//! Read guards: scoped observations of the read-side copy.
//!
//! A guard is handed out by `ReadHandle::enter` and owns a counted handle
//! onto the copy that was current when the critical section began. The
//! reader's epoch counter went odd on entry; calling [`ReadGuard::release`]
//! ends the critical section and flips it back to even. A guard that is
//! merely dropped leaves the epoch odd, and the writer will then wait for
//! this reader forever: release every guard.

use vstd::prelude::*;
use std::sync::Arc;
use crate::registry::EpochRegistry;

verus! {

/// A live observation of the read-side copy.
pub struct ReadGuard<T> {
    t: Arc<T>,
    epochs: EpochRegistry,
    epoch_i: usize,
}

impl<T> View for ReadGuard<T> {
    type V = T;

    closed spec fn view(&self) -> T {
        *self.t
    }
}

impl<T> ReadGuard<T> {
    pub(crate) fn new(t: Arc<T>, epochs: EpochRegistry, epoch_i: usize) -> (g: ReadGuard<T>)
        ensures
            g@ == *t,
    {
        ReadGuard { t, epochs, epoch_i }
    }

    /// The observed copy.
    pub fn value(&self) -> (r: &T)
        ensures
            *r == self@,
    {
        &*self.t
    }

    /// End the critical section: advance the owning reader's epoch counter
    /// back to even.
    pub fn release(self) {
        self.epochs.advance(self.epoch_i);
    }

    /// A projection of the guard through `f`, borrowing from the guard; the
    /// critical section stays with `orig`.
    pub fn map<'a, U, F: FnOnce(&'a T) -> &'a U>(orig: &'a ReadGuard<T>, f: F) -> (r:
        MappedReadGuard<'a, U>)
        requires
            forall|x: &'a T| *x == orig@ ==> call_requires(f, (x,)),
        ensures
            exists|x: &'a T, y: &'a U| *x == orig@ && call_ensures(f, (x,), y) && *y == r@,
    {
        let t = orig.value();
        let u = f(t);
        MappedReadGuard { t: u }
    }

    /// A partial projection of the guard through `f`; `None` is handed back
    /// unchanged, and the critical section stays with `orig` either way.
    pub fn try_map<'a, U, F: FnOnce(&'a T) -> Option<&'a U>>(orig: &'a ReadGuard<T>, f: F) -> (r:
        Option<MappedReadGuard<'a, U>>)
        requires
            forall|x: &'a T| *x == orig@ ==> call_requires(f, (x,)),
        ensures
            r matches Some(g) ==> exists|x: &'a T, y: &'a U|
                *x == orig@ && call_ensures(f, (x,), Some(y)) && *y == g@,
            r is None ==> exists|x: &'a T| *x == orig@ && call_ensures(f, (x,), None::<&'a U>),
    {
        let t = orig.value();
        match f(t) {
            Some(u) => Some(MappedReadGuard { t: u }),
            None => None,
        }
    }
}

/// The result of projecting a [`ReadGuard`] with [`ReadGuard::map`] or
/// [`ReadGuard::try_map`]: a borrow of part of the observed copy.
pub struct MappedReadGuard<'a, U> {
    t: &'a U,
}

impl<'a, U> View for MappedReadGuard<'a, U> {
    type V = U;

    closed spec fn view(&self) -> U {
        *self.t
    }
}

impl<'a, U> MappedReadGuard<'a, U> {
    /// The projected borrow.
    pub fn value(&self) -> (r: &U)
        ensures
            *r == self@,
    {
        self.t
    }
}

} // verus!
