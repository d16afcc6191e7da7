//! The aliased cell: a value tagged with a compile-time drop flavor, so
//! that the same logical element can live in both copies of a container
//! while exactly one residence is in charge of its disposal.
//!
//! Here each alias owns its own copy of the value — taking one clones —
//! so either flavor may be dropped freely; the flavor still records which
//! residence a container means to be the disposing one, and
//! [`Aliased::change_drop`] moves an element from one flavor to the other
//! when its removal is applied for the second time.

use vstd::prelude::*;
use std::marker::PhantomData;

verus! {

/// The compile-time drop flavor of an [`Aliased`] cell.
pub trait DropBehavior {
    /// Whether a cell of this flavor is in charge of its payload's
    /// disposal.
    spec fn do_drop() -> bool;
}

/// The flavor a container stores while the element may still be shared
/// with the twin copy: not in charge of disposal.
pub struct NoDrop;

impl DropBehavior for NoDrop {
    open spec fn do_drop() -> bool {
        false
    }
}

/// The flavor an element takes when its removal is made permanent: in
/// charge of disposal.
pub struct DoDrop;

impl DropBehavior for DoDrop {
    open spec fn do_drop() -> bool {
        true
    }
}

/// A value tagged with a drop flavor.
pub struct Aliased<T, D: DropBehavior> {
    value: T,
    flavor: PhantomData<D>,
}

impl<T, D: DropBehavior> View for Aliased<T, D> {
    type V = T;

    closed spec fn view(&self) -> T {
        self.value
    }
}

impl<T, D: DropBehavior> Aliased<T, D> {
    /// A cell owning `t`.
    pub fn from(t: T) -> (r: Aliased<T, D>)
        ensures
            r@ == t,
    {
        Aliased { value: t, flavor: PhantomData }
    }

    /// A second cell carrying the same logical element; each alias owns
    /// its own copy of the value.
    pub fn alias(&self) -> (r: Aliased<T, D>) where T: Clone
        ensures
            cloned(self@, r@),
    {
        Aliased { value: self.value.clone(), flavor: PhantomData }
    }

    /// Reinterpret the drop flavor, keeping the value.
    pub fn change_drop<D2: DropBehavior>(self) -> (r: Aliased<T, D2>)
        ensures
            r@ == self@,
    {
        Aliased { value: self.value, flavor: PhantomData }
    }

    /// Borrow the value.
    pub fn get(&self) -> (r: &T)
        ensures
            *r == self@,
    {
        &self.value
    }
}

} // verus!
