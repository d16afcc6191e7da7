//! A single-writer, multi-reader snapshot primitive.
//!
//! A writer owns two copies of a data structure `T` and buffers operations
//! in a log. On `publish` it applies the buffered operations and promotes
//! the freshly written copy to the read side; readers observe the read side
//! through scoped guards. Every operation is applied once to each copy, so
//! the two copies track each other exactly one publish apart.

use vstd::prelude::*;

pub mod aliasing;
pub mod cell;
pub mod counter;
pub mod deque;
pub mod factory;
pub mod guard;
pub mod read;
pub mod registry;
pub mod write;

pub use crate::factory::ReadHandleFactory;
pub use crate::guard::MappedReadGuard;
pub use crate::guard::ReadGuard;
pub use crate::read::ReadHandle;
pub use crate::write::Taken;
pub use crate::write::WriteHandle;

verus! {

/// How a data structure `T` ingests operations of type `O`.
///
/// Implementors describe the meaning of one operation with the spec
/// function [`Absorb::apply`]; the executable absorption methods must
/// realise exactly that meaning. The writer applies every operation twice,
/// once to each of its two copies, and the contracts below are what make
/// the copies provably converge.
pub trait Absorb<O>: Sized {
    /// The mathematical effect of one operation on a value.
    spec fn apply(s: Self, op: O) -> Self;

    /// Apply an operation to one copy, with read access to the twin copy.
    ///
    /// The operation may be rewritten in place (for example to stash data
    /// needed by the second application), but the rewritten operation must
    /// keep the same effect.
    fn absorb_first(&mut self, operation: &mut O, other: &Self)
        ensures
            *final(self) == Self::apply(*old(self), *old(operation)),
            forall|s: Self| Self::apply(s, *final(operation)) == Self::apply(s, *old(operation)),
    ;

    /// Apply an operation for the final time, consuming it.
    fn absorb_second(&mut self, operation: O, other: &Self)
        ensures
            *final(self) == Self::apply(*old(self), operation),
    {
        let mut op = operation;
        self.absorb_first(&mut op, other);
    }

    /// Make `self` equal to `first`; called once per pair, right before the
    /// second publish applies its operations.
    fn sync_with(&mut self, first: &Self)
        ensures
            *final(self) == *first,
    ;

    /// Dispose of a copy whose history is "first-applied, not second-applied".
    fn drop_first(self: Box<Self>) {
    }

    /// Dispose of a copy whose history is "second-applied".
    fn drop_second(self: Box<Self>) {
    }
}

/// The effect of a whole sequence of operations, applied left to right.
pub open spec fn apply_seq<T: Absorb<O>, O>(s: T, ops: Seq<O>) -> T
    decreases ops.len(),
{
    if ops.len() == 0 {
        s
    } else {
        apply_seq(T::apply(s, ops[0]), ops.skip(1))
    }
}

/// Whether `v` arises from `base` by some sequence of operations.
pub open spec fn reachable_from<T: Absorb<O>, O>(base: T, v: T) -> bool {
    exists|sigma: Seq<O>| v == apply_seq(base, sigma)
}

/// Two operations with the same effect on every value: how a rewritten
/// operation relates to the operation it replaced.
pub open spec fn same_effect<T: Absorb<O>, O>(a: O, b: O) -> bool {
    forall|s: T| T::apply(s, a) == T::apply(s, b)
}

/// Appending one operation to a sequence applies it last.
pub proof fn lemma_apply_seq_push<T: Absorb<O>, O>(s: T, ops: Seq<O>, x: O)
    ensures
        apply_seq(s, ops.push(x)) == T::apply(apply_seq(s, ops), x),
    decreases ops.len(),
{
    if ops.len() == 0 {
        assert(ops.push(x)[0] == x);
        assert(ops.push(x).skip(1) =~= Seq::<O>::empty());
        assert(apply_seq(s, ops.push(x)) == apply_seq(T::apply(s, x), Seq::<O>::empty()));
        assert(apply_seq(T::apply(s, x), Seq::<O>::empty()) == T::apply(s, x));
        assert(apply_seq(s, ops) == s);
    } else {
        assert(ops.push(x)[0] == ops[0]);
        assert(ops.push(x).skip(1) =~= ops.skip(1).push(x));
        lemma_apply_seq_push(T::apply(s, ops[0]), ops.skip(1), x);
    }
}

/// Splitting a sequence of operations splits its application.
pub proof fn lemma_apply_seq_concat<T: Absorb<O>, O>(s: T, a: Seq<O>, b: Seq<O>)
    ensures
        apply_seq(s, a + b) == apply_seq(apply_seq(s, a), b),
    decreases a.len(),
{
    if a.len() == 0 {
        assert(a + b =~= b);
    } else {
        assert((a + b)[0] == a[0]);
        assert((a + b).skip(1) =~= a.skip(1) + b);
        lemma_apply_seq_concat(T::apply(s, a[0]), a.skip(1), b);
    }
}

/// One more recorded operation on top of a prefix.
pub proof fn lemma_apply_seq_take_succ<T: Absorb<O>, O>(s: T, ops: Seq<O>, n: int)
    requires
        0 <= n < ops.len(),
    ensures
        apply_seq(s, ops.take(n + 1)) == T::apply(apply_seq(s, ops.take(n)), ops[n]),
{
    assert(ops.take(n + 1) =~= ops.take(n).push(ops[n]));
    lemma_apply_seq_push(s, ops.take(n), ops[n]);
}

/// A fresh pair whose two copies are `t` and a clone of it. The writer's
/// ledger proceeds from `t`, the copy it owns.
pub fn new_from_empty<T, O>(t: T) -> (pair: (WriteHandle<T, O>, ReadHandle<T>)) where
    T: Absorb<O> + Clone,
    ensures
        pair.0.wf(),
        !pair.0.is_taken(),
        pair.0.in_first_regime(),
        pair.0.base_value() == t,
        pair.0.all_ops() == Seq::<O>::empty(),
        pair.0.refresh_count() == 0,
        forall|v: T| #[trigger] pair.1.allowed().contains(v) ==> reachable_from::<T, O>(t, v)
            || cloned(t, v),
        cloned(t, pair.0.initial_twin()),
{
    let epochs = crate::registry::EpochRegistry::new();
    let twin_copy = t.clone();
    let ghost tw = twin_copy;
    let r0 = std::sync::Arc::new(twin_copy);
    let ghost allowed = Set::new(|v: T| reachable_from::<T, O>(t, v) || v == *r0);
    proof {
        assert(Seq::<O>::empty().len() == 0);
        assert(apply_seq::<T, O>(t, Seq::<O>::empty()) == t);
        assert(allowed.contains(*r0));
    }
    let r = ReadHandle::new(
        crate::registry::arc_duplicate(&r0),
        epochs.duplicate(),
        Ghost(allowed),
    );
    let w = WriteHandle::new(t, r0, epochs, r.fork(), Ghost(tw));
    (w, r)
}

/// A fresh pair whose two copies are default-constructed.
pub fn new<T, O>() -> (pair: (WriteHandle<T, O>, ReadHandle<T>)) where
    T: Absorb<O> + Default,
    ensures
        pair.0.wf(),
        !pair.0.is_taken(),
        pair.0.in_first_regime(),
        pair.0.all_ops() == Seq::<O>::empty(),
        pair.0.refresh_count() == 0,
        call_ensures(T::default, (), pair.0.base_value()),
        forall|v: T| #[trigger] pair.1.allowed().contains(v) ==> reachable_from::<T, O>(
            pair.0.base_value(),
            v,
        ) || call_ensures(T::default, (), v),
        call_ensures(T::default, (), pair.0.initial_twin()),
{
    let epochs = crate::registry::EpochRegistry::new();
    let w_copy = T::default();
    let r_copy = T::default();
    let ghost tw = r_copy;
    let r0 = std::sync::Arc::new(r_copy);
    let ghost allowed = Set::new(|v: T| reachable_from::<T, O>(w_copy, v) || v == *r0);
    proof {
        assert(allowed.contains(*r0));
    }
    let r = ReadHandle::new(
        crate::registry::arc_duplicate(&r0),
        epochs.duplicate(),
        Ghost(allowed),
    );
    let w = WriteHandle::new(w_copy, r0, epochs, r.fork(), Ghost(tw));
    (w, r)
}

} // verus!
