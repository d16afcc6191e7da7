//! The epoch registry: a shared table of per-reader epoch counters with
//! stable slot ids.
//!
//! The table is a `slab::Slab<usize>` under a readers-writer lock. Readers
//! touch it at construction (to claim a slot) and on every critical-section
//! entry and exit (to advance their counter); the writer snapshots all
//! counters at each publish. An epoch counter's parity encodes the reader's
//! state: even means quiescent, odd means inside a critical section.

use vstd::prelude::*;
use vstd::rwlock::RwLock;
use vstd::rwlock::RwLockPredicate;
use std::sync::Arc;

verus! {

/// A lock predicate that admits every value: the lock's contents are plain
/// shared state, constrained by the handles' contracts rather than by an
/// invariant.
pub struct Unrestricted;

impl<V> RwLockPredicate<V> for Unrestricted {
    open spec fn inv(self, v: V) -> bool {
        true
    }
}

#[verifier::external_type_specification]
#[verifier::external_body]
#[verifier::reject_recursive_types(T)]
pub struct ExSlab<T>(slab::Slab<T>);

/// The entries an epoch slab holds, as a map from slot id to epoch value.
pub uninterp spec fn slab_entries(s: slab::Slab<usize>) -> Map<usize, usize>;

/// Relies on slab::Slab::new: a new slab has no entries.
#[verifier::external_body]
fn slab_new() -> (r: slab::Slab<usize>)
    ensures
        (slab_entries(r) == Map::<usize, usize>::empty()),
{
    slab::Slab::new()
}

/// Relies on slab::Slab::insert: the value is stored at a previously vacant
/// key, and that key is returned.
#[verifier::external_body]
fn slab_insert(s: &mut slab::Slab<usize>, v: usize) -> (key: usize)
    ensures
        !slab_entries(*old(s)).contains_key(key),
        slab_entries(*final(s)) == slab_entries(*old(s)).insert(key, v),
{
    s.insert(v)
}

/// Relies on slab::Slab::get: returns the value at the key iff the key is
/// occupied.
#[verifier::external_body]
fn slab_get(s: &slab::Slab<usize>, key: usize) -> (r: Option<usize>)
    ensures
        r == (if slab_entries(*s).contains_key(key) {
            Some(slab_entries(*s)[key])
        } else {
            None::<usize>
        }),
{
    s.get(key).copied()
}

/// Relies on slab::Slab::get_mut: a store through the returned reference
/// replaces the value at an occupied key; a vacant key yields no reference.
#[verifier::external_body]
fn slab_set(s: &mut slab::Slab<usize>, key: usize, v: usize)
    ensures
        slab_entries(*final(s)) == (if slab_entries(*old(s)).contains_key(key) {
            slab_entries(*old(s)).insert(key, v)
        } else {
            slab_entries(*old(s))
        }),
{
    if let Some(slot) = s.get_mut(key) {
        *slot = v;
    }
}

/// Relies on slab::Slab::try_remove: vacates an occupied key and returns
/// its value; a vacant key yields nothing and leaves the slab untouched.
#[verifier::external_body]
fn slab_remove(s: &mut slab::Slab<usize>, key: usize) -> (r: Option<usize>)
    ensures
        r == (if slab_entries(*old(s)).contains_key(key) {
            Some(slab_entries(*old(s))[key])
        } else {
            None::<usize>
        }),
        slab_entries(*final(s)) == slab_entries(*old(s)).remove(key),
{
    s.try_remove(key)
}

/// Relies on slab::Slab::iter: yields exactly the occupied entries, each as
/// a pair of its key and its value, no key twice.
#[verifier::external_body]
fn slab_pairs(s: &slab::Slab<usize>) -> (r: Vec<(usize, usize)>)
    ensures
        forall|i: int|
            0 <= i < r@.len() ==> #[trigger] slab_entries(*s).contains_key(r@[i].0)
                && slab_entries(*s)[r@[i].0] == r@[i].1,
        forall|k: usize|
            #[trigger] slab_entries(*s).contains_key(k)
                ==> exists|i: int| 0 <= i < r@.len() && r@[i].0 == k,
        forall|i: int, j: int| 0 <= i < j < r@.len() ==> r@[i].0 != r@[j].0,
{
    s.iter().map(|(k, v)| (k, *v)).collect()
}

/// Relies on slab::Slab::capacity: occupied keys index the slab's storage,
/// so every occupied key lies below the capacity.
#[verifier::external_body]
fn slab_capacity(s: &slab::Slab<usize>) -> (r: usize)
    ensures
        forall|k: usize| #[trigger] slab_entries(*s).contains_key(k) ==> k < r,
{
    s.capacity()
}

/// Relies on Arc::clone: the new handle refers to the same value.
#[verifier::external_body]
pub(crate) fn arc_duplicate<T>(a: &Arc<T>) -> (r: Arc<T>)
    ensures
        r == *a,
{
    Arc::clone(a)
}

/// A shared registry of per-reader epoch counters.
///
/// All handles made with [`EpochRegistry::duplicate`] address the same
/// table. The lock's contents are shared state, so nothing relates the
/// values seen by two separate acquisitions; every contract below speaks
/// only of a single acquisition.
pub struct EpochRegistry {
    lock: Arc<RwLock<slab::Slab<usize>, Unrestricted>>,
}

impl EpochRegistry {
    /// A fresh registry with no slots.
    pub fn new() -> EpochRegistry {
        EpochRegistry {
            lock: Arc::new(RwLock::new(slab_new(), Ghost(Unrestricted))),
        }
    }

    /// Another handle onto the same table.
    pub fn duplicate(&self) -> EpochRegistry {
        EpochRegistry { lock: arc_duplicate(&self.lock) }
    }

    /// Claim a fresh slot, with its epoch counter at zero.
    pub fn register(&self) -> usize {
        let (mut slab, handle) = self.lock.acquire_write();
        let key = slab_insert(&mut slab, 0);
        handle.release_write(slab);
        key
    }

    /// Advance the epoch counter of `slot` by one, flipping its parity.
    /// A vacant slot is left untouched.
    pub fn advance(&self, slot: usize) {
        let (mut slab, handle) = self.lock.acquire_write();
        match slab_get(&slab, slot) {
            Some(cur) => {
                slab_set(&mut slab, slot, cur.wrapping_add(1));
            },
            None => {},
        }
        handle.release_write(slab);
    }

    /// Free `slot`, returning its final epoch; a vacant slot yields
    /// nothing. The slot id may be reused by a later registration.
    pub fn unregister(&self, slot: usize) -> Option<usize> {
        let (mut slab, handle) = self.lock.acquire_write();
        let gone = slab_remove(&mut slab, slot);
        handle.release_write(slab);
        gone
    }

    /// Every slot's current epoch, paired with an upper bound on the slot
    /// ids in use, all read under a single acquisition.
    pub fn snapshot(&self) -> (r: (Vec<(usize, usize)>, usize))
        ensures
            forall|i: int| 0 <= i < r.0@.len() ==> #[trigger] r.0@[i].0 < r.1,
            forall|i: int, j: int| 0 <= i < j < r.0@.len() ==> r.0@[i].0 != r.0@[j].0,
    {
        let read_handle = self.lock.acquire_read();
        let slab = read_handle.borrow();
        let pairs = slab_pairs(slab);
        let cap = slab_capacity(slab);
        read_handle.release_read();
        assert forall|i: int| 0 <= i < pairs@.len() implies pairs@[i].0 < cap by {
            assert(slab_entries(*slab).contains_key(pairs@[i].0));
        }
        (pairs, cap)
    }
}

} // verus!
