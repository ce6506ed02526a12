//! Weighted combinations of two points.
//!
//! Every point the fit derives from others is a combination of exactly two
//! of them with small integer weights. The weights are decided here; the
//! arithmetic on the coordinates is the caller's.

use vstd::prelude::*;

verus! {

/// Integer weights of a combination of two points `a` and `b`: the point
/// `(near · a + far · b) / divisor`.
#[derive(Clone, Copy, Debug, PartialEq, Eq, Structural)]
pub struct Weights {
    /// Weight of the first operand.
    pub near: i32,
    /// Weight of the second operand.
    pub far: i32,
    /// What the weighted sum is divided by; never zero in a blend that this
    /// crate hands out.
    pub divisor: i32,
}

impl Weights {
    /// The weighted sum of two coordinates, before the division.
    pub open spec fn weighted_sum(self, a: int, b: int) -> int {
        self.near * a + self.far * b
    }

    /// Whether the combination is affine: the weights add up to the divisor,
    /// so that blending a point with itself gives that point back.
    pub open spec fn is_affine(self) -> bool {
        self.divisor != 0 && self.near + self.far == self.divisor
    }
}

/// A combination that is waiting to be evaluated: the weights together with
/// the two points they apply to.
#[derive(Clone, Copy, Debug, PartialEq)]
pub struct Blend<T> {
    /// The weights of the two operands.
    pub weights: Weights,
    /// The first operand.
    pub near: T,
    /// The second operand.
    pub far: T,
}

} // verus!
