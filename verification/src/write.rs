//! The write handle: sole owner of the write-side copy, the operation log,
//! and the publish algorithm.
//!
//! The writer's contracts are stated against a ghost ledger: `base` is the
//! initial value of the write-side copy, `ops` is every operation ever
//! taken in, and two boundaries partition `ops`. The first `retired`
//! operations are reflected by the write-side copy, the first `applied`
//! are reflected by the read-side copy, and `[applied, len)` are pending,
//! reflected nowhere. The log holds the operations beyond `retired` — the
//! possibly rewritten forms, each with the same effect as the operation it
//! replaced — and `swap_index == applied - retired` marks how far the log
//! has been applied to the read side.

use vstd::prelude::*;
use std::sync::Arc;
use std::marker::PhantomData;
use crate::Absorb;
use crate::apply_seq;
use crate::lemma_apply_seq_take_succ;
use crate::same_effect;
use crate::cell::arc_claim;
use crate::read::ReadHandle;
use crate::registry::arc_duplicate;
use crate::registry::EpochRegistry;

verus! {

/// Whether a snapshot of the epoch table shows every reader clear of the
/// write-side copy: a slot recorded even was quiescent at the last
/// publish's pointer swap, and a slot recorded odd must have moved since.
pub open spec fn epochs_settled(last: Seq<usize>, snap: Seq<(usize, usize)>) -> bool {
    forall|i: int|
        0 <= i < snap.len() && (#[trigger] snap[i]).0 < last.len() ==> (last[snap[i].0 as int] % 2
            == 0 || snap[i].1 != last[snap[i].0 as int])
}

/// A reader whose recorded epoch is odd and whose counter has not moved is
/// still inside the critical section it was in at the snapshot: the scan
/// does not settle, so the writer's next apply phase stays postponed.
pub proof fn lemma_straggler_blocks(last: Seq<usize>, snap: Seq<(usize, usize)>, i: int)
    requires
        0 <= i < snap.len(),
        snap[i].0 < last.len(),
        last[snap[i].0 as int] % 2 == 1,
        snap[i].1 == last[snap[i].0 as int],
    ensures
        !epochs_settled(last, snap),
{
}

/// The scan of one snapshot against the recorded epochs.
fn scan_settled(last: &Vec<usize>, snap: &Vec<(usize, usize)>) -> (r: bool)
    ensures
        r == epochs_settled(last@, snap@),
{
    let mut i: usize = 0;
    let mut ok = true;
    while i < snap.len()
        invariant
            0 <= i <= snap@.len(),
            ok == (forall|j: int|
                0 <= j < i && (#[trigger] snap@[j]).0 < last@.len() ==> (last@[snap@[j].0 as int]
                    % 2 == 0 || snap@[j].1 != last@[snap@[j].0 as int])),
        decreases snap@.len() - i,
    {
        let (slot, now) = snap[i];
        if slot < last.len() {
            let before = last[slot];
            if before % 2 == 1 && now == before {
                ok = false;
            }
        }
        i += 1;
    }
    ok
}

/// Extend the recorded-epoch table with quiescent entries up to `cap`.
fn grow_epoch_record(last: &mut Vec<usize>, cap: usize)
    ensures
        final(last)@.len() >= cap,
        final(last)@.len() >= old(last)@.len(),
        forall|i: int| 0 <= i < old(last)@.len() ==> final(last)@[i] == old(last)@[i],
        forall|i: int| old(last)@.len() <= i < final(last)@.len() ==> final(last)@[i] == 0,
{
    while last.len() < cap
        invariant
            last@.len() >= old(last)@.len(),
            forall|i: int| 0 <= i < old(last)@.len() ==> last@[i] == old(last)@[i],
            forall|i: int| old(last)@.len() <= i < last@.len() ==> last@[i] == 0,
        decreases cap - last@.len(),
    {
        last.push(0);
    }
}

/// The surviving copy handed out by the terminal drain; its history is
/// "second-applied", so its disposal belongs to `Absorb::drop_second`.
pub struct Taken<T, O> where T: Absorb<O> {
    inner: Box<T>,
    operations: PhantomData<O>,
}

impl<T, O> View for Taken<T, O> where T: Absorb<O> {
    type V = T;

    closed spec fn view(&self) -> T {
        *self.inner
    }
}

impl<T, O> Taken<T, O> where T: Absorb<O> {
    /// The surviving value.
    pub fn value(&self) -> (r: &T)
        ensures
            *r == self@,
    {
        &*self.inner
    }

    /// Give up the container; the caller takes over routing the disposal.
    pub fn into_box(self) -> (r: Box<T>)
        ensures
            *r == self@,
    {
        self.inner
    }

    /// Dispose of the surviving copy through `Absorb::drop_second`.
    pub fn dispose(self) {
        T::drop_second(self.inner);
    }
}

/// The sole writer of a pair.
///
/// Dismantling is explicit: call [`WriteHandle::take`] to drain the log
/// and recover the surviving copy. A writer that is merely dropped
/// performs no terminal drain — the shared cell keeps its copy, readers
/// go on observing it, and neither disposal routine runs.
#[verifier::reject_recursive_types(T)]
pub struct WriteHandle<T, O> where T: Absorb<O> {
    epochs: EpochRegistry,
    w_arc: Option<Arc<T>>,
    r_arc: Option<Arc<T>>,
    r_handle: ReadHandle<T>,
    oplog: Vec<O>,
    swap_index: usize,
    last_epochs: Vec<usize>,
    refreshes: usize,
    first: bool,
    second: bool,
    taken: bool,
    base: Ghost<T>,
    twin: Ghost<T>,
    ops: Ghost<Seq<O>>,
    applied: Ghost<int>,
    retired: Ghost<int>,
    syncs: Ghost<int>,
}

impl<T, O> WriteHandle<T, O> where T: Absorb<O> {
    /// The initial value of the write-side copy, from which every recorded
    /// operation proceeds.
    pub closed spec fn base_value(&self) -> T {
        self.base@
    }

    /// The initial value of the read-side copy: the clone handed to the
    /// readers at construction, which becomes the write side after the
    /// first publish and is overwritten by `sync_with` at the second.
    pub closed spec fn initial_twin(&self) -> T {
        self.twin@
    }

    /// Every operation ever taken in, in order, by its original value.
    pub closed spec fn all_ops(&self) -> Seq<O> {
        self.ops@
    }

    /// How many recorded operations the read-side copy reflects.
    pub closed spec fn n_applied(&self) -> int {
        self.applied@
    }

    /// How many recorded operations the write-side copy reflects.
    pub closed spec fn n_retired(&self) -> int {
        self.retired@
    }

    /// The value of the read-side copy, per the ledger.
    pub closed spec fn published(&self) -> T {
        apply_seq(self.base@, self.ops@.take(self.applied@))
    }

    /// The value of the write-side copy, per the ledger.
    pub closed spec fn write_side(&self) -> T {
        apply_seq(self.base@, self.ops@.take(self.retired@))
    }

    /// How many operations are pending: appended but published nowhere.
    pub open spec fn pending_count(&self) -> int {
        self.all_ops().len() - self.n_applied()
    }

    /// Whether no publish has ever run on this pair.
    pub closed spec fn in_first_regime(&self) -> bool {
        self.first
    }

    /// Whether the terminal drain has run.
    pub closed spec fn is_taken(&self) -> bool {
        self.taken
    }

    /// How many times `publish` has completed, saturating at the machine
    /// limit.
    pub closed spec fn refresh_count(&self) -> int {
        self.refreshes as int
    }

    /// How many times `Absorb::sync_with` has been invoked on this pair.
    pub closed spec fn sync_count(&self) -> int {
        self.syncs@
    }

    /// The boundary of the log: entries below it were applied to the read
    /// side at the last publish, entries above it are pending.
    pub closed spec fn swap_boundary(&self) -> int {
        self.swap_index as int
    }

    /// How many entries the log holds.
    pub closed spec fn log_size(&self) -> int {
        self.oplog@.len() as int
    }

    /// The writer's invariant, tying the copies, the log and the ledger
    /// together.
    pub closed spec fn wf(&self) -> bool {
        &&& 0 <= self.retired@ <= self.applied@ <= self.ops@.len()
        &&& self.oplog@.len() == self.ops@.len() - self.retired@
        &&& self.swap_index as int == self.applied@ - self.retired@
        &&& forall|i: int|
            0 <= i < self.oplog@.len() ==> same_effect::<T, O>(
                #[trigger] self.oplog@[i],
                self.ops@[self.retired@ + i],
            )
        &&& self.syncs@ == if self.second {
            0int
        } else {
            1int
        }
        &&& self.second ==> self.retired@ == self.applied@
        &&& !self.taken ==> self.w_arc is Some && self.r_arc is Some
        &&& self.first ==> self.second && self.applied@ == self.ops@.len() && self.retired@
            == self.ops@.len()
        &&& forall|v: T|
            #[trigger] crate::reachable_from::<T, O>(self.base@, v)
                ==> self.r_handle.allowed().contains(v)
        &&& (!self.taken && self.first) ==> *self.w_arc->0 == apply_seq(self.base@, self.ops@)
        &&& (!self.taken && self.first) ==> *self.r_arc->0 == self.twin@
        &&& (!self.taken && !self.first && self.second) ==> *self.w_arc->0 == self.twin@
        &&& (!self.taken && !self.first) ==> *self.r_arc->0 == self.published()
        &&& (!self.taken && !self.first && !self.second) ==> *self.w_arc->0 == self.write_side()
    }

    /// A fresh writer over the copy `w`, whose twin `r_arc` sits in the
    /// cell that `r_handle` reads.
    pub(crate) fn new(
        w: T,
        r_arc: Arc<T>,
        epochs: EpochRegistry,
        r_handle: ReadHandle<T>,
        Ghost(tw): Ghost<T>,
    ) -> (s: WriteHandle<T, O>)
        requires
            tw == *r_arc,
            forall|v: T|
                #[trigger] crate::reachable_from::<T, O>(w, v) ==> r_handle.allowed().contains(v),
        ensures
            s.wf(),
            !s.is_taken(),
            s.in_first_regime(),
            s.base_value() == w,
            s.initial_twin() == *r_arc,
            s.all_ops() == Seq::<O>::empty(),
            s.refresh_count() == 0,
    {
        let ghost b = w;
        WriteHandle {
            epochs,
            w_arc: Some(Arc::new(w)),
            r_arc: Some(r_arc),
            r_handle,
            oplog: Vec::new(),
            swap_index: 0,
            last_epochs: Vec::new(),
            refreshes: 0,
            first: true,
            second: true,
            taken: false,
            base: Ghost(b),
            twin: Ghost(tw),
            ops: Ghost(Seq::empty()),
            applied: Ghost(0),
            retired: Ghost(0),
            syncs: Ghost(0),
        }
    }

    /// Whether operations are pending: appended since the last publish and
    /// not yet visible to readers.
    pub fn has_pending_operations(&self) -> (r: bool)
        requires
            self.wf(),
        ensures
            r == (self.pending_count() > 0),
    {
        self.swap_index < self.oplog.len()
    }

    /// How many entries the operation log holds.
    pub fn log_len(&self) -> (r: usize)
        ensures
            r as int == self.log_size(),
    {
        self.oplog.len()
    }

    /// The log boundary: entries below it await their second application.
    pub fn swap_index(&self) -> (r: usize)
        ensures
            r as int == self.swap_boundary(),
    {
        self.swap_index
    }

    /// Whether no publish has ever run.
    pub fn is_first(&self) -> (r: bool)
        ensures
            r == self.in_first_regime(),
    {
        self.first
    }

    /// How many publishes have completed, saturating at the machine limit.
    pub fn refreshes(&self) -> (r: usize)
        ensures
            r as int == self.refresh_count(),
    {
        self.refreshes
    }

    /// Enqueue one operation. Before the first publish it is applied to the
    /// write-side copy at once, both copies still being fresh; after, it is
    /// appended to the log, pending until the next publish.
    pub fn append(&mut self, op: O)
        requires
            old(self).wf(),
            !old(self).is_taken(),
        ensures
            final(self).wf(),
            !final(self).is_taken(),
            final(self).base_value() == old(self).base_value(),
            final(self).all_ops() == old(self).all_ops().push(op),
            final(self).in_first_regime() == old(self).in_first_regime(),
            final(self).refresh_count() == old(self).refresh_count(),
            final(self).sync_count() == old(self).sync_count(),
            old(self).in_first_regime() ==> final(self).n_applied() == final(self).all_ops().len()
                && final(self).n_retired() == final(self).all_ops().len(),
            !old(self).in_first_regime() ==> final(self).n_applied() == old(self).n_applied()
                && final(self).n_retired() == old(self).n_retired(),
            !old(self).in_first_regime() ==> final(self).published() == old(self).published()
                && final(self).write_side() == old(self).write_side(),
            old(self).in_first_regime() ==> final(self).published() == T::apply(
                old(self).published(),
                op,
            ),
            final(self).initial_twin() == old(self).initial_twin(),
    {
        let ghost recorded = op;
        if self.first {
            let w_opt = self.w_arc.take();
            let mut t = arc_claim(w_opt.unwrap());
            let r_snap = match &self.r_arc {
                Some(a) => arc_duplicate(a),
                None => vstd::pervasive::unreached(),
            };
            t.absorb_second(op, &*r_snap);
            proof {
                crate::lemma_apply_seq_push::<T, O>(self.base@, self.ops@, recorded);
            }
            self.w_arc = Some(Arc::new(t));
            self.ops = Ghost(self.ops@.push(recorded));
            self.applied = Ghost(self.applied@ + 1);
            self.retired = Ghost(self.retired@ + 1);
            proof {
                assert(self.ops@.take(self.applied@) =~= self.ops@);
                assert(old(self).ops@.take(old(self).applied@) =~= old(self).ops@);
            }
        } else {
            self.oplog.push(op);
            self.ops = Ghost(self.ops@.push(recorded));
            proof {
                assert(self.ops@.take(self.applied@) =~= old(self).ops@.take(self.applied@));
                assert(self.ops@.take(self.retired@) =~= old(self).ops@.take(self.retired@));
            }
        }
    }

    /// Enqueue a batch of operations, in order.
    pub fn extend(&mut self, ops: Vec<O>)
        requires
            old(self).wf(),
            !old(self).is_taken(),
        ensures
            final(self).wf(),
            !final(self).is_taken(),
            final(self).base_value() == old(self).base_value(),
            final(self).all_ops() == old(self).all_ops() + ops@,
            final(self).in_first_regime() == old(self).in_first_regime(),
            final(self).refresh_count() == old(self).refresh_count(),
            final(self).sync_count() == old(self).sync_count(),
            old(self).in_first_regime() ==> final(self).n_applied() == final(self).all_ops().len()
                && final(self).n_retired() == final(self).all_ops().len(),
            !old(self).in_first_regime() ==> final(self).n_applied() == old(self).n_applied()
                && final(self).n_retired() == old(self).n_retired(),
            !old(self).in_first_regime() ==> final(self).published() == old(self).published()
                && final(self).write_side() == old(self).write_side(),
            old(self).in_first_regime() ==> final(self).published() == apply_seq(
                old(self).published(),
                ops@,
            ),
            final(self).initial_twin() == old(self).initial_twin(),
    {
        let ghost whole = ops@;
        let mut rest = ops;
        let total: usize = rest.len();
        let mut taken_in: usize = 0;
        while rest.len() > 0
            invariant
                whole.len() == total as int,
                taken_in <= total,
                self.wf(),
                !self.is_taken(),
                self.base_value() == old(self).base_value(),
                self.in_first_regime() == old(self).in_first_regime(),
                self.refresh_count() == old(self).refresh_count(),
                self.sync_count() == old(self).sync_count(),
                taken_in as int == whole.len() - rest@.len(),
                rest@ == whole.skip(taken_in as int),
                self.all_ops() == old(self).all_ops() + whole.take(taken_in as int),
                self.initial_twin() == old(self).initial_twin(),
                !old(self).in_first_regime() ==> self.n_applied() == old(self).n_applied()
                    && self.n_retired() == old(self).n_retired(),
                !old(self).in_first_regime() ==> self.published() == old(self).published()
                    && self.write_side() == old(self).write_side(),
                old(self).in_first_regime() ==> self.published() == apply_seq(
                    old(self).published(),
                    whole.take(taken_in as int),
                ),
            decreases rest@.len(),
        {
            let op = rest.remove(0);
            proof {
                assert(whole.take(taken_in as int).push(whole[taken_in as int]) =~= whole.take(
                    taken_in as int + 1,
                ));
                assert(old(self).all_ops() + whole.take(taken_in as int + 1) =~= (old(
                    self,
                ).all_ops() + whole.take(taken_in as int)).push(whole[taken_in as int]));
            }
            proof {
                assert(rest@ =~= whole.skip(taken_in as int + 1));
                if old(self).in_first_regime() {
                    lemma_apply_seq_take_succ::<T, O>(
                        old(self).published(),
                        whole,
                        taken_in as int,
                    );
                }
            }
            self.append(op);
            taken_in += 1;
        }
        proof {
            assert(whole.take(taken_in as int) =~= whole);
        }
    }

    /// Wait until no reader that was recorded inside a critical section at
    /// the last publish's swap is still inside it, re-reading the registry
    /// until a snapshot settles. A permanently entered reader keeps the
    /// writer here, up to a very large spin budget.
    fn wait(epochs: &EpochRegistry, last_epochs: &mut Vec<usize>)
        ensures
            final(last_epochs)@.len() >= old(last_epochs)@.len(),
            forall|i: int|
                0 <= i < old(last_epochs)@.len() ==> final(last_epochs)@[i] == old(last_epochs)@[i],
            forall|i: int|
                old(last_epochs)@.len() <= i < final(last_epochs)@.len() ==> final(last_epochs)@[i] == 0,
    {
        let (snap, cap) = epochs.snapshot();
        grow_epoch_record(last_epochs, cap);
        let mut ok = scan_settled(last_epochs, &snap);
        let mut fuel: usize = usize::MAX;
        while !ok && fuel > 0
            invariant
                last_epochs@.len() >= old(last_epochs)@.len(),
                forall|i: int|
                    0 <= i < old(last_epochs)@.len() ==> last_epochs@[i] == old(last_epochs)@[i],
                forall|i: int|
                    old(last_epochs)@.len() <= i < last_epochs@.len() ==> last_epochs@[i] == 0,
            decreases fuel,
        {
            fuel -= 1;
            let (again, cap_again) = epochs.snapshot();
            grow_epoch_record(last_epochs, cap_again);
            ok = scan_settled(last_epochs, &again);
        }
    }

    /// Record every reader's current epoch: the parities at the moment of
    /// the swap, which the next publish will wait out. Every snapshotted
    /// slot's value is written into the record; every other entry is kept
    /// (or zero where the record grew).
    fn record_epochs(epochs: &EpochRegistry, last_epochs: &mut Vec<usize>) -> (snap: Ghost<
        Seq<(usize, usize)>,
    >)
        ensures
            final(last_epochs)@.len() >= old(last_epochs)@.len(),
            forall|j: int|
                0 <= j < snap@.len() ==> (#[trigger] snap@[j]).0 < final(last_epochs)@.len(),
            forall|j: int|
                0 <= j < snap@.len() ==> final(last_epochs)@[(#[trigger] snap@[j]).0 as int]
                    == snap@[j].1,
            forall|i: int|
                0 <= i < final(last_epochs)@.len() && (forall|j: int|
                    0 <= j < snap@.len() ==> (#[trigger] snap@[j]).0 != i) ==> final(last_epochs)@[i] == (if i < old(last_epochs)@.len() {
                    old(last_epochs)@[i]
                } else {
                    0
                }),
    {
        let (snap, cap) = epochs.snapshot();
        grow_epoch_record(last_epochs, cap);
        let ghost grown = last_epochs@;
        let mut i: usize = 0;
        while i < snap.len()
            invariant
                0 <= i <= snap@.len(),
                last_epochs@.len() == grown.len(),
                grown.len() >= cap as int,
                grown.len() >= old(last_epochs)@.len(),
                forall|x: int| 0 <= x < old(last_epochs)@.len() ==> grown[x] == old(last_epochs)@[x],
                forall|x: int| old(last_epochs)@.len() <= x < grown.len() ==> grown[x] == 0,
                forall|j: int| 0 <= j < snap@.len() ==> (#[trigger] snap@[j]).0 < cap,
                forall|j1: int, j2: int|
                    0 <= j1 < j2 < snap@.len() ==> snap@[j1].0 != snap@[j2].0,
                forall|j: int|
                    0 <= j < i ==> last_epochs@[(#[trigger] snap@[j]).0 as int] == snap@[j].1,
                forall|x: int|
                    0 <= x < grown.len() && (forall|j: int|
                        0 <= j < i ==> (#[trigger] snap@[j]).0 != x) ==> last_epochs@[x]
                        == grown[x],
            decreases snap@.len() - i,
        {
            let (slot, val) = snap[i];
            last_epochs[slot] = val;
            i += 1;
        }
        proof {
            assert forall|x: int|
                0 <= x < last_epochs@.len() && (forall|j: int|
                    0 <= j < snap@.len() ==> (#[trigger] snap@[j]).0 != x) implies last_epochs@[x]
                == (if x < old(last_epochs)@.len() {
                old(last_epochs)@[x]
            } else {
                0
            }) by {
                assert(last_epochs@[x] == grown[x]);
            }
        }
        Ghost(snap@)
    }

    /// Publish: wait out the readers recorded at the previous swap, apply
    /// the log to the write-side copy — every entry below `swap_index` for
    /// the second and final time, every entry above it for the first time —
    /// then swap the two copies and record the readers' epochs. Afterwards
    /// every operation ever taken in is visible on the read side.
    pub fn publish(&mut self)
        requires
            old(self).wf(),
            !old(self).is_taken(),
        ensures
            final(self).wf(),
            !final(self).is_taken(),
            !final(self).in_first_regime(),
            final(self).base_value() == old(self).base_value(),
            final(self).all_ops() == old(self).all_ops(),
            final(self).n_applied() == old(self).all_ops().len(),
            final(self).n_retired() == old(self).n_applied(),
            final(self).published() == apply_seq(old(self).base_value(), old(self).all_ops()),
            final(self).write_side() == old(self).published(),
            final(self).initial_twin() == old(self).initial_twin(),
            old(self).in_first_regime() ==> final(self).sync_count() == 0,
            !old(self).in_first_regime() ==> final(self).sync_count() == 1,
            final(self).refresh_count() == if old(self).refresh_count() < usize::MAX {
                old(self).refresh_count() + 1
            } else {
                old(self).refresh_count()
            },
    {
        Self::wait(&self.epochs, &mut self.last_epochs);
        if !self.first {
            let w_opt = self.w_arc.take();
            let mut t = arc_claim(w_opt.unwrap());
            let r_snap = match &self.r_arc {
                Some(a) => arc_duplicate(a),
                None => vstd::pervasive::unreached(),
            };
            if self.second {
                t.sync_with(&*r_snap);
                self.second = false;
                self.syncs = Ghost(self.syncs@ + 1);
            }
            let ghost retired_in = self.retired@;
            let sw = self.swap_index;
            let mut k: usize = 0;
            while k < sw
                invariant
                    0 <= k <= sw,
                    !self.taken,
                    !self.first,
                    !self.second,
                    self.syncs@ == 1,
                    self.ops@ == old(self).ops@,
                    self.base@ == old(self).base@,
                    self.applied@ == old(self).applied@,
                    0 <= retired_in,
                    self.refreshes == old(self).refreshes,
                    self.retired@ == retired_in + k,
                    self.retired@ <= self.applied@ <= self.ops@.len(),
                    sw as int == self.applied@ - retired_in,
                    self.oplog@.len() == self.ops@.len() - self.retired@,
                    forall|i: int|
                        0 <= i < self.oplog@.len() ==> same_effect::<T, O>(
                            #[trigger] self.oplog@[i],
                            self.ops@[self.retired@ + i],
                        ),
                    t == apply_seq(self.base@, self.ops@.take(self.retired@)),
                    self.r_arc == old(self).r_arc,
                    self.r_handle == old(self).r_handle,
                    self.twin == old(self).twin,
                    *r_snap == *old(self).r_arc->0,
                decreases sw - k,
            {
                let ghost log_before = self.oplog@;
                let op = self.oplog.remove(0);
                proof {
                    lemma_apply_seq_take_succ::<T, O>(self.base@, self.ops@, self.retired@);
                    assert(same_effect::<T, O>(op, self.ops@[self.retired@]));
                }
                t.absorb_second(op, &*r_snap);
                self.retired = Ghost(self.retired@ + 1);
                proof {
                    assert(forall|i: int|
                        0 <= i < self.oplog@.len() ==> #[trigger] self.oplog@[i] == log_before[
                            i + 1
                        ]);
                }
                k += 1;
            }
            let ghost retired_mid = self.retired@;
            let mut rest: Vec<O> = Vec::new();
            while self.oplog.len() > 0
                invariant
                    !self.taken,
                    !self.first,
                    !self.second,
                    self.syncs@ == 1,
                    self.ops@ == old(self).ops@,
                    self.base@ == old(self).base@,
                    0 <= retired_mid,
                    self.refreshes == old(self).refreshes,
                    self.retired@ == retired_mid,
                    retired_mid == old(self).applied@,
                    self.applied@ == retired_mid + rest@.len(),
                    self.retired@ <= self.applied@ <= self.ops@.len(),
                    self.oplog@.len() == self.ops@.len() - self.applied@,
                    forall|i: int|
                        0 <= i < self.oplog@.len() ==> same_effect::<T, O>(
                            #[trigger] self.oplog@[i],
                            self.ops@[self.applied@ + i],
                        ),
                    forall|i: int|
                        0 <= i < rest@.len() ==> same_effect::<T, O>(
                            #[trigger] rest@[i],
                            self.ops@[retired_mid + i],
                        ),
                    t == apply_seq(self.base@, self.ops@.take(self.applied@)),
                    self.r_arc == old(self).r_arc,
                    self.r_handle == old(self).r_handle,
                    self.twin == old(self).twin,
                    *r_snap == *old(self).r_arc->0,
                decreases self.oplog@.len(),
            {
                let ghost log_before = self.oplog@;
                let mut op = self.oplog.remove(0);
                proof {
                    lemma_apply_seq_take_succ::<T, O>(self.base@, self.ops@, self.applied@);
                    assert(same_effect::<T, O>(op, self.ops@[self.applied@]));
                }
                t.absorb_first(&mut op, &*r_snap);
                rest.push(op);
                self.applied = Ghost(self.applied@ + 1);
                proof {
                    assert(same_effect::<T, O>(op, self.ops@[self.applied@ - 1]));
                    assert(forall|i: int|
                        0 <= i < self.oplog@.len() ==> #[trigger] self.oplog@[i] == log_before[
                            i + 1
                        ]);
                }
            }
            self.oplog = rest;
            self.swap_index = self.oplog.len();
            let new_arc = Arc::new(t);
            proof {
                assert(*new_arc == apply_seq(self.base@, self.ops@.take(self.applied@)));
                assert(crate::reachable_from::<T, O>(self.base@, *new_arc));
            }
            let for_cell = arc_duplicate(&new_arc);
            let _ = self.r_handle.cell_ref().replace(Some(for_cell));
            let prev_r = self.r_arc.take();
            self.w_arc = prev_r;
            self.r_arc = Some(new_arc);
            proof {
                assert(self.ops@.take(self.applied@) =~= self.ops@);
                assert(self.ops@.take(self.retired@) =~= self.ops@.take(old(self).applied@));
            }
        } else {
            self.first = false;
            let w_opt = self.w_arc.take();
            let w = w_opt.unwrap();
            proof {
                assert(*w == apply_seq(self.base@, self.ops@));
                assert(crate::reachable_from::<T, O>(self.base@, *w));
            }
            let for_cell = arc_duplicate(&w);
            let _ = self.r_handle.cell_ref().replace(Some(for_cell));
            let prev_r = self.r_arc.take();
            self.w_arc = prev_r;
            self.r_arc = Some(w);
            proof {
                assert(self.ops@.take(self.applied@) =~= self.ops@);
                assert(self.ops@.take(self.retired@) =~= self.ops@);
            }
        }
        let _ = Self::record_epochs(&self.epochs, &mut self.last_epochs);
        if self.refreshes < usize::MAX {
            self.refreshes = self.refreshes + 1;
        }
    }

    /// Publish iff operations are pending. On an empty log this is a
    /// no-op: nothing changes, not even the publish counter.
    pub fn flush(&mut self)
        requires
            old(self).wf(),
            !old(self).is_taken(),
        ensures
            final(self).wf(),
            !final(self).is_taken(),
            old(self).pending_count() == 0 ==> *final(self) == *old(self),
            final(self).initial_twin() == old(self).initial_twin(),
            old(self).pending_count() > 0 ==> {
                &&& !final(self).in_first_regime()
                &&& final(self).all_ops() == old(self).all_ops()
                &&& final(self).base_value() == old(self).base_value()
                &&& final(self).n_applied() == old(self).all_ops().len()
                &&& final(self).n_retired() == old(self).n_applied()
                &&& final(self).published() == apply_seq(
                    old(self).base_value(),
                    old(self).all_ops(),
                )
                &&& final(self).write_side() == old(self).published()
                &&& final(self).refresh_count() == if old(self).refresh_count() < usize::MAX {
                    old(self).refresh_count() + 1
                } else {
                    old(self).refresh_count()
                }
            },
    {
        if self.has_pending_operations() {
            self.publish();
        }
    }

    /// The terminal drain: publish until the log is empty (at most twice),
    /// clear the shared cell so readers see the dismantling, wait out the
    /// last critical sections, dispose of the write-side copy through
    /// `Absorb::drop_first`, and hand the read-side copy out. Idempotent
    /// through the `taken` flag: a second call is a harmless no-op.
    fn take_inner(&mut self) -> (r: Option<Taken<T, O>>)
        requires
            old(self).wf(),
        ensures
            final(self).wf(),
            old(self).is_taken() ==> r is None && *final(self) == *old(self),
            !old(self).is_taken() ==> final(self).is_taken() && (r matches Some(tk) && tk@
                == apply_seq(old(self).base_value(), old(self).all_ops())),
    {
        if self.taken {
            return None;
        }
        if self.is_first() || self.log_len() > 0 {
            self.publish();
        }
        if self.log_len() > 0 {
            self.publish();
        }
        let _ = self.r_handle.cell_ref().replace(None);
        Self::wait(&self.epochs, &mut self.last_epochs);
        let w_opt = self.w_arc.take();
        let w_copy = arc_claim(w_opt.unwrap());
        T::drop_first(Box::new(w_copy));
        let r_opt = self.r_arc.take();
        let r_copy = arc_claim(r_opt.unwrap());
        self.taken = true;
        proof {
            assert(self.ops@.take(self.applied@) =~= self.ops@);
        }
        Some(Taken { inner: Box::new(r_copy), operations: PhantomData })
    }

    /// Dismantle the writer: drain the log, dispose of the write-side copy
    /// and hand out the surviving read-side copy, whose value reflects
    /// every operation ever taken in.
    pub fn take(self) -> (r: Taken<T, O>)
        requires
            self.wf(),
            !self.is_taken(),
        ensures
            r@ == apply_seq(self.base_value(), self.all_ops()),
    {
        let mut this = self;
        match this.take_inner() {
            Some(tk) => tk,
            None => vstd::pervasive::unreached(),
        }
    }

    /// The embedded read handle, for observing the pair from the writer's
    /// side.
    pub fn read_handle(&self) -> &ReadHandle<T> {
        &self.r_handle
    }

    /// Read access to the write-side copy: the buffered state during the
    /// first regime, and the copy awaiting its second applications after.
    pub fn raw_write_handle(&self) -> (r: &T)
        requires
            self.wf(),
            !self.is_taken(),
        ensures
            self.in_first_regime() ==> *r == apply_seq(self.base_value(), self.all_ops()),
            self.sync_count() == 1 ==> *r == self.write_side(),
            !self.in_first_regime() && self.sync_count() == 0 ==> *r == self.initial_twin(),
    {
        match &self.w_arc {
            Some(a) => &**a,
            None => vstd::pervasive::unreached(),
        }
    }
}

/// The two copies converge: the read side is exactly the write side with
/// the log's second-apply backlog — the entries below `swap_index` —
/// applied on top, and nothing else divides them. Once that backlog is
/// drained (at the next publish, or at the terminal drain) the copies are
/// equal.
pub proof fn lemma_copies_converge<T: Absorb<O>, O>(w: &WriteHandle<T, O>)
    requires
        w.wf(),
    ensures
        w.published() == apply_seq(
            w.write_side(),
            w.all_ops().subrange(w.n_retired(), w.n_applied()),
        ),
        w.n_retired() == w.n_applied() ==> w.published() == w.write_side(),
{
    let a = w.all_ops().take(w.n_retired());
    let b = w.all_ops().subrange(w.n_retired(), w.n_applied());
    assert(w.all_ops().take(w.n_applied()) =~= a + b);
    crate::lemma_apply_seq_concat::<T, O>(w.base_value(), a, b);
    if w.n_retired() == w.n_applied() {
        assert(b.len() == 0);
        assert(apply_seq(w.write_side(), b) == w.write_side());
    }
}

/// The log's second-apply boundary never passes the log's end.
pub proof fn lemma_swap_index_bounded<T: Absorb<O>, O>(w: &WriteHandle<T, O>)
    requires
        w.wf(),
    ensures
        0 <= w.swap_boundary() <= w.log_size(),
{
}

/// The log mirrors the ledger: it holds exactly the operations not yet
/// retired, and `swap_index` counts those of them already applied to the
/// read side. With this a caller can compute the log's length from the
/// ledger that the mutating contracts speak of.
pub proof fn lemma_log_mirrors_ledger<T: Absorb<O>, O>(w: &WriteHandle<T, O>)
    requires
        w.wf(),
    ensures
        w.log_size() == w.all_ops().len() - w.n_retired(),
        w.swap_boundary() == w.n_applied() - w.n_retired(),
{
}

/// Operations go through their two applications in order. The ledger's
/// boundaries satisfy `retired <= applied <= all`: an operation is
/// second-applied only after it was first-applied. `publish` moves
/// `applied` to the end of the ledger and `retired` to where `applied`
/// stood, so each operation crosses each boundary — is handed to each
/// absorption — exactly once, the first application first.
pub proof fn lemma_apply_order<T: Absorb<O>, O>(w: &WriteHandle<T, O>)
    requires
        w.wf(),
    ensures
        0 <= w.n_retired() <= w.n_applied() <= w.all_ops().len(),
        w.pending_count() == w.all_ops().len() - w.n_applied(),
{
}

/// `sync_with` runs exactly once per pair: never while no publish has
/// handed the fresh write copy over, and exactly once from the second
/// publish on.
pub proof fn lemma_sync_once<T: Absorb<O>, O>(w: &WriteHandle<T, O>)
    requires
        w.wf(),
    ensures
        0 <= w.sync_count() <= 1,
        w.in_first_regime() ==> w.sync_count() == 0,
{
}

} // verus!
