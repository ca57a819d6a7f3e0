//! The snake: an ordered body of cells plus its current heading.

use vstd::prelude::*;
use std::collections::VecDeque;
use crate::geometry::{Bounds, Direction, Point, in_interior, manhattan};

verus! {

/// Ordered body segments (head at the front, tail at the back) and the
/// current heading.
pub struct Snake {
    pub body: VecDeque<Point>,
    pub direction: Direction,
}

impl Snake {
    /// Well-formedness inside a given playing field: the body is non-empty,
    /// every segment lies strictly inside the walls, no cell is occupied
    /// twice, and consecutive segments touch.
    pub open spec fn wf(self, b: Bounds) -> bool {
        &&& self.body@.len() >= 1
        &&& forall|i: int| 0 <= i < self.body@.len() ==> in_interior(#[trigger] self.body@[i], b)
        &&& forall|i: int, j: int|
            0 <= i < j < self.body@.len() ==> self.body@[i] != self.body@[j]
        &&& forall|i: int|
            0 <= i < self.body@.len() - 1 ==> manhattan(
                #[trigger] self.body@[i],
                self.body@[i + 1],
            ) == 1
    }

    /// The cell the head occupies.
    pub open spec fn head_spec(self) -> Point
        recommends
            self.body@.len() >= 1,
    {
        self.body@[0]
    }

    /// Returns the cell the head occupies.
    pub fn head(&self) -> (r: Point)
        requires
            self.body@.len() >= 1,
        ensures
            r == self.head_spec(),
    {
        self.body[0]
    }

    /// Returns whether some body segment occupies `p`.
    pub fn occupies(&self, p: Point) -> (r: bool)
        ensures
            r == self.body@.contains(p),
    {
        let n = self.body.len();
        let mut i: usize = 0;
        while i < n
            invariant
                n == self.body@.len(),
                0 <= i <= n,
                forall|j: int| 0 <= j < i ==> self.body@[j] != p,
            decreases n - i,
        {
            if self.body[i] == p {
                assert(self.body@.contains(p)) by {
                    assert(self.body@[i as int] == p);
                }
                return true;
            }
            i += 1;
        }
        assert(!self.body@.contains(p)) by {
            assert(forall|j: int| 0 <= j < self.body@.len() ==> self.body@[j] != p);
        }
        false
    }
}

} // verus!
