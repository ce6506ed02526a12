//! The control points of a fit, as far as they can be decided without
//! arithmetic on coordinates.
//!
//! A fit through `n + 1` anchors has `n` segments, and each segment has a
//! first and a second control point. The caller walks through three steps:
//!
//! 1. [`first_points`] says how the first control points are obtained: from
//!    one blend of the two anchors, or from a linear system.
//! 2. [`solved_points`] takes what the caller's solver returned and accepts
//!    or rejects it.
//! 3. [`second_points`] gives the blend behind every second control point.

use crate::blend::{Blend, Weights};
use crate::error::FitError;
use crate::system::rhs_weights;
use vstd::prelude::*;

verus! {

/// How the first control points of a fit are obtained.
#[derive(Debug, PartialEq)]
pub enum FirstPoints<T> {
    /// There is one segment, and its first control point is this blend of
    /// the two anchors.
    Direct(Blend<T>),
    /// There are `n >= 2` segments. Their first control points solve
    /// `A · first = D`, where `A` is the coefficient matrix for `n` and the
    /// `n` blends held here are the rows of `D`.
    System(Vec<Blend<T>>),
}

/// Weights of the first control point of a lone segment: a third of the way
/// from the first anchor to the second.
pub open spec fn lone_first_weights() -> Weights {
    Weights { near: 2, far: 1, divisor: 3 }
}

/// Weights of the second control point of a lone segment: two thirds of the
/// way from the first anchor to the second.
pub open spec fn lone_second_weights() -> Weights {
    Weights { near: 1, far: 2, divisor: 3 }
}

/// Weights that mirror the second operand in the first: `2 · a - b`.
pub open spec fn mirror_weights() -> Weights {
    Weights { near: 2, far: -1i32, divisor: 1 }
}

/// Weights of the point halfway between the two operands.
pub open spec fn midpoint_weights() -> Weights {
    Weights { near: 1, far: 1, divisor: 2 }
}

/// The right-hand side of the linear system for these anchors: row `i`
/// blends the anchors `i` and `i + 1`.
pub open spec fn right_hand_side<T>(anchors: Seq<T>) -> Seq<Blend<T>> {
    Seq::new(
        (anchors.len() - 1) as nat,
        |i: int|
            Blend {
                weights: rhs_weights(anchors.len() - 1, i),
                near: anchors[i],
                far: anchors[i + 1],
            },
    )
}

/// The blend behind the first control point of a lone segment.
pub open spec fn lone_first_blend<T>(anchors: Seq<T>) -> Blend<T> {
    Blend { weights: lone_first_weights(), near: anchors[0], far: anchors[1] }
}

/// Whether `outcome` is the answer of [`first_points`] for these anchors.
pub open spec fn is_first_points<T>(
    anchors: Seq<T>,
    outcome: Result<FirstPoints<T>, FitError>,
) -> bool {
    match outcome {
        Err(e) => anchors.len() < 2 && e == FitError::InvalidInput,
        Ok(FirstPoints::Direct(blend)) => anchors.len() == 2 && blend == lone_first_blend(anchors),
        Ok(FirstPoints::System(rows)) => anchors.len() >= 3 && rows@ == right_hand_side(anchors),
    }
}

/// The blend behind the second control point of segment `i`.
///
/// Up to the last segment it mirrors the next segment's first control point
/// in the anchor that the two segments share. In the last segment it lies
/// halfway between that segment's first control point and the last anchor.
/// A lone segment takes it from the two anchors alone.
pub open spec fn second_blend<T>(anchors: Seq<T>, first: Seq<T>, i: int) -> Blend<T> {
    if first.len() == 1 {
        Blend { weights: lone_second_weights(), near: anchors[0], far: anchors[1] }
    } else if i < first.len() - 1 {
        Blend { weights: mirror_weights(), near: anchors[i + 1], far: first[i + 1] }
    } else {
        Blend { weights: midpoint_weights(), near: first[i], far: anchors[i + 1] }
    }
}

/// The blends behind all second control points, segment by segment.
pub open spec fn second_blends<T>(anchors: Seq<T>, first: Seq<T>) -> Seq<Blend<T>> {
    Seq::new(first.len(), |i: int| second_blend(anchors, first, i))
}

/// Whether `first` holds one point per segment of a fit through `anchors`.
pub open spec fn fits<T>(anchors: Seq<T>, first: Seq<T>) -> bool {
    anchors.len() >= 2 && first.len() == anchors.len() - 1
}

/// Says how to obtain the first control point of every segment.
///
/// Fewer than two anchors are rejected. Two anchors make one segment, whose
/// first control point is a blend of the two. Three or more anchors give the
/// right-hand side of the linear system to solve.
pub fn first_points<T: Copy>(anchors: &Vec<T>) -> (outcome: Result<FirstPoints<T>, FitError>)
    ensures
        outcome is Ok <==> anchors@.len() >= 2,
        is_first_points(anchors@, outcome),
{
    let count: usize = anchors.len();
    if count < 2 {
        return Err(FitError::InvalidInput);
    }
    if count == 2 {
        return Ok(
            FirstPoints::Direct(
                Blend {
                    weights: Weights { near: 2, far: 1, divisor: 3 },
                    near: anchors[0],
                    far: anchors[1],
                },
            ),
        );
    }
    let n: usize = count - 1;
    let mut rows: Vec<Blend<T>> = Vec::new();
    let mut i: usize = 0;
    while i < n
        invariant
            n == anchors.len() - 1,
            n >= 2,
            i <= n,
            rows.len() == i,
            forall|k: int| 0 <= k < i ==> #[trigger] rows[k] == (Blend {
                weights: Weights { near: 4, far: 2, divisor: 1 },
                near: anchors[k],
                far: anchors[k + 1],
            }),
        decreases n - i,
    {
        rows.push(
            Blend {
                weights: Weights { near: 4, far: 2, divisor: 1 },
                near: anchors[i],
                far: anchors[i + 1],
            },
        );
        i += 1;
    }
    rows.set(
        0,
        Blend { weights: Weights { near: 1, far: 2, divisor: 1 }, near: anchors[0], far: anchors[1] },
    );
    rows.set(
        n - 1,
        Blend {
            weights: Weights { near: 8, far: 1, divisor: 1 },
            near: anchors[n - 1],
            far: anchors[n],
        },
    );
    assert(rows@ =~= right_hand_side(anchors@));
    Ok(FirstPoints::System(rows))
}

/// Accepts or rejects what a solver returned for the linear system.
///
/// Without two anchors there is nothing to solve. A solver that found the
/// matrix singular returns nothing, and the fit fails with it. A solution
/// is accepted when it has one point per segment.
pub fn solved_points<T>(anchors: &Vec<T>, solved: Option<Vec<T>>) -> (outcome: Result<
    Vec<T>,
    FitError,
>)
    ensures
        outcome == (if anchors.len() < 2 {
            Err::<Vec<T>, FitError>(FitError::InvalidInput)
        } else {
            match solved {
                None => Err(FitError::SingularSystem),
                Some(first) => if fits(anchors@, first@) {
                    Ok(first)
                } else {
                    Err(FitError::InvalidInput)
                },
            }
        }),
{
    if anchors.len() < 2 {
        return Err(FitError::InvalidInput);
    }
    match solved {
        None => Err(FitError::SingularSystem),
        Some(first) => {
            if first.len() == anchors.len() - 1 {
                Ok(first)
            } else {
                Err(FitError::InvalidInput)
            }
        },
    }
}

/// Gives the blend behind the second control point of every segment.
///
/// `first` holds the first control points. The call is rejected unless
/// there are at least two anchors and one first control point per segment.
pub fn second_points<T: Copy>(anchors: &Vec<T>, first: &Vec<T>) -> (outcome: Result<
    Vec<Blend<T>>,
    FitError,
>)
    ensures
        outcome is Ok <==> fits(anchors@, first@),
        match outcome {
            Ok(blends) => blends@ == second_blends(anchors@, first@),
            Err(e) => e == FitError::InvalidInput,
        },
{
    if anchors.len() < 2 || first.len() != anchors.len() - 1 {
        return Err(FitError::InvalidInput);
    }
    let n: usize = first.len();
    let mut blends: Vec<Blend<T>> = Vec::new();
    if n == 1 {
        blends.push(
            Blend {
                weights: Weights { near: 1, far: 2, divisor: 3 },
                near: anchors[0],
                far: anchors[1],
            },
        );
        assert(blends@ =~= second_blends(anchors@, first@));
        return Ok(blends);
    }
    let mut i: usize = 0;
    while i < n - 1
        invariant
            n == first.len(),
            n + 1 == anchors.len(),
            n >= 2,
            i <= n - 1,
            blends.len() == i,
            forall|k: int| 0 <= k < i ==> #[trigger] blends[k] == second_blend(anchors@, first@, k),
        decreases n - 1 - i,
    {
        blends.push(
            Blend {
                weights: Weights { near: 2, far: -1, divisor: 1 },
                near: anchors[i + 1],
                far: first[i + 1],
            },
        );
        i += 1;
    }
    blends.push(
        Blend {
            weights: Weights { near: 1, far: 1, divisor: 2 },
            near: first[n - 1],
            far: anchors[n],
        },
    );
    assert(blends@ =~= second_blends(anchors@, first@));
    Ok(blends)
}

/// Every control point that is blended from two others is an affine
/// combination of them: its weights add up to its divisor, which is not
/// zero.
pub proof fn lemma_control_blends_affine<T>(anchors: Seq<T>, first: Seq<T>, i: int)
    ensures
        lone_first_blend(anchors).weights.is_affine(),
        second_blend(anchors, first, i).weights.is_affine(),
{
}

/// Asking twice gives the same answer: two outcomes of [`first_points`]
/// for the same anchors fail alike, or name the same blend, or hold the same
/// rows.
pub proof fn lemma_first_points_repeatable<T>(
    anchors: Seq<T>,
    a: Result<FirstPoints<T>, FitError>,
    b: Result<FirstPoints<T>, FitError>,
)
    requires
        is_first_points(anchors, a),
        is_first_points(anchors, b),
    ensures
        match (a, b) {
            (Err(x), Err(y)) => x == y,
            (Ok(FirstPoints::Direct(x)), Ok(FirstPoints::Direct(y))) => x == y,
            (Ok(FirstPoints::System(x)), Ok(FirstPoints::System(y))) => x@ == y@,
            _ => false,
        },
{
}

} // verus!
