//! A minimal absorber: an `i32` counter whose operations add an amount.
//!
//! The smallest useful instance of [`Absorb`], and the one the test suite
//! drives the machinery with.

use vstd::prelude::*;
use crate::Absorb;

verus! {

/// An operation that adds its amount to the counter, wrapping on overflow.
pub struct CounterAddOp(pub i32);

impl Absorb<CounterAddOp> for i32 {
    open spec fn apply(s: i32, op: CounterAddOp) -> i32 {
        s.wrapping_add(op.0)
    }

    fn absorb_first(&mut self, operation: &mut CounterAddOp, other: &Self) {
        *self = self.wrapping_add(operation.0);
    }

    fn sync_with(&mut self, first: &Self) {
        *self = *first;
    }
}

} // verus!
