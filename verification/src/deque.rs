//! A verified container absorber: a deque of integers, the classic shape
//! built on top of this primitive.
//!
//! The container is a cons-list so that its values can be written down in
//! specifications; operations push at the back and pop at the front, and
//! the spec functions give each operation's meaning on the element
//! sequence.

use vstd::prelude::*;
use crate::Absorb;

verus! {

/// A deque of integers, front first.
pub enum IntDeque {
    Empty,
    Node(i32, Box<IntDeque>),
}

/// A deque operation: push an element at the back, or drop the front one.
pub enum DequeOp {
    PushBack(i32),
    PopFront,
}

impl IntDeque {
    /// The elements, front first.
    pub open spec fn elems(self) -> Seq<i32>
        decreases self,
    {
        match self {
            IntDeque::Empty => Seq::empty(),
            IntDeque::Node(h, t) => Seq::empty().push(h) + t.elems(),
        }
    }

    /// With `x` appended at the back.
    pub open spec fn pushed_back(self, x: i32) -> IntDeque
        decreases self,
    {
        match self {
            IntDeque::Empty => IntDeque::Node(x, Box::new(IntDeque::Empty)),
            IntDeque::Node(h, t) => IntDeque::Node(h, Box::new(t.pushed_back(x))),
        }
    }

    /// Without its front element; empty stays empty.
    pub open spec fn popped_front(self) -> IntDeque {
        match self {
            IntDeque::Empty => IntDeque::Empty,
            IntDeque::Node(_, t) => *t,
        }
    }

    /// An owned copy of the list.
    pub fn duplicate(&self) -> (r: IntDeque)
        ensures
            r == *self,
        decreases *self,
    {
        match self {
            IntDeque::Empty => IntDeque::Empty,
            IntDeque::Node(h, t) => IntDeque::Node(*h, Box::new(t.duplicate())),
        }
    }

    /// The elements as a vector, front first.
    pub fn to_vec(&self) -> (r: Vec<i32>)
        ensures
            r@ == self.elems(),
        decreases *self,
    {
        match self {
            IntDeque::Empty => Vec::new(),
            IntDeque::Node(h, t) => {
                let mut v: Vec<i32> = Vec::new();
                v.push(*h);
                let ghost front = v@;
                let mut rest = t.to_vec();
                let ghost tail = rest@;
                let total: usize = rest.len();
                let mut moved: usize = 0;
                while rest.len() > 0
                    invariant
                        tail.len() == total as int,
                        moved <= total,
                        moved as int == tail.len() - rest@.len(),
                        rest@ == tail.skip(moved as int),
                        v@ == front + tail.take(moved as int),
                    decreases rest@.len(),
                {
                    let x = rest.remove(0);
                    v.push(x);
                    proof {
                        assert(v@ =~= front + tail.take(moved as int + 1));
                        assert(rest@ =~= tail.skip(moved as int + 1));
                    }
                    moved += 1;
                }
                proof {
                    assert(tail.take(moved as int) =~= tail);
                }
                v
            },
        }
    }

    fn push_back(self, x: i32) -> (r: IntDeque)
        ensures
            r == self.pushed_back(x),
        decreases self,
    {
        match self {
            IntDeque::Empty => IntDeque::Node(x, Box::new(IntDeque::Empty)),
            IntDeque::Node(h, t) => IntDeque::Node(h, Box::new(t.push_back(x))),
        }
    }

    fn pop_front(self) -> (r: IntDeque)
        ensures
            r == self.popped_front(),
    {
        match self {
            IntDeque::Empty => IntDeque::Empty,
            IntDeque::Node(_, t) => *t,
        }
    }
}

impl Default for IntDeque {
    fn default() -> (r: IntDeque)
        ensures
            r == IntDeque::Empty,
    {
        IntDeque::Empty
    }
}

impl Absorb<DequeOp> for IntDeque {
    open spec fn apply(s: IntDeque, op: DequeOp) -> IntDeque {
        match op {
            DequeOp::PushBack(x) => s.pushed_back(x),
            DequeOp::PopFront => s.popped_front(),
        }
    }

    fn absorb_first(&mut self, operation: &mut DequeOp, other: &Self) {
        let current = self.duplicate();
        let next = match operation {
            DequeOp::PushBack(x) => current.push_back(*x),
            DequeOp::PopFront => current.pop_front(),
        };
        *self = next;
    }

    fn sync_with(&mut self, first: &Self) {
        *self = first.duplicate();
    }
}

} // verus!
