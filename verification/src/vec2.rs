//! Fixed-point 2D vectors and the squared-magnitude model every stage's
//! contract is stated over.

use vstd::prelude::*;

verus! {

/// A 2D vector with fixed-point integer components.
#[derive(Clone, Copy, Debug, PartialEq, Eq, Structural)]
pub struct Vec2 {
    pub x: i64,
    pub y: i64,
}

impl Vec2 {
    /// The squared Euclidean magnitude, as an unbounded integer.
    pub open spec fn mag_sq(self) -> int {
        self.x * self.x + self.y * self.y
    }

    /// Componentwise magnitude bound.
    pub open spec fn within(self, bound: int) -> bool {
        -bound <= self.x <= bound && -bound <= self.y <= bound
    }
}

} // verus!
