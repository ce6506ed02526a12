//! Why the fitted curve is smooth.
//!
//! The laws below read the linear system and the closing rules as
//! statements about the curve. They are stated for one coordinate at a
//! time and in exact arithmetic, with integers for the coordinates; every
//! rule is linear, so scaling carries them over to fractions.
//!
//! A segment with the points `start`, `first`, `second`, `end` has the
//! tangent `3 (first - start)` where it starts and `3 (end - second)` where
//! it ends, and the curvature vector `6 (start - 2 first + second)` where
//! it starts and `6 (first - 2 second + end)` where it ends.

use crate::blend::Blend;
use crate::control::{lone_first_blend, right_hand_side, second_blend};
use crate::system::{lemma_row_is_band, lemma_solution_unique, row_dot, solves};
use vstd::prelude::*;

verus! {

/// Whether `value` is exactly the coordinate that `blend` stands for.
pub open spec fn evaluates_to(blend: Blend<int>, value: int) -> bool {
    blend.weights.divisor * value == blend.weights.weighted_sum(blend.near, blend.far)
}

/// The right-hand side of the linear system, evaluated.
pub open spec fn rhs_values(anchors: Seq<int>) -> Seq<int> {
    Seq::new(
        (anchors.len() - 1) as nat,
        |i: int|
            right_hand_side(anchors)[i].weights.weighted_sum(
                right_hand_side(anchors)[i].near,
                right_hand_side(anchors)[i].far,
            ),
    )
}

/// Whether `first` and `second` are the control points of the fit through
/// `anchors`: the first control points are the lone blend or solve the
/// linear system, and every second control point is what its blend says.
pub open spec fn is_fit(anchors: Seq<int>, first: Seq<int>, second: Seq<int>) -> bool {
    &&& anchors.len() >= 2
    &&& first.len() == anchors.len() - 1
    &&& second.len() == anchors.len() - 1
    &&& if anchors.len() == 2 {
        evaluates_to(lone_first_blend(anchors), first[0])
    } else {
        solves(anchors.len() - 1, first, rhs_values(anchors))
    }
    &&& forall|i: int|
        0 <= i < second.len() ==> evaluates_to(second_blend(anchors, first, i), #[trigger] second[i])
}

/// A weighted sum with known weights, written out.
proof fn lemma_weighted_sum(blend: Blend<int>, near: int, far: int)
    requires
        blend.weights.near == near,
        blend.weights.far == far,
    ensures
        blend.weights.weighted_sum(blend.near, blend.far) == near * blend.near + far * blend.far,
{
}

/// Row `i` of the right-hand side, written out.
proof fn lemma_rhs_value(anchors: Seq<int>, i: int)
    requires
        anchors.len() >= 3,
        0 <= i < anchors.len() - 1,
    ensures
        rhs_values(anchors)[i] == (if i == anchors.len() - 2 {
            8 * anchors[i] + anchors[i + 1]
        } else if i == 0 {
            anchors[0] + 2 * anchors[1]
        } else {
            4 * anchors[i] + 2 * anchors[i + 1]
        }),
{
    let row = right_hand_side(anchors)[i];
    if i == anchors.len() - 2 {
        lemma_weighted_sum(row, 8, 1);
    } else if i == 0 {
        lemma_weighted_sum(row, 1, 2);
    } else {
        lemma_weighted_sum(row, 4, 2);
    }
}

/// What it means for `value` to be the second control point of segment
/// `i`, written out.
proof fn lemma_second_value(anchors: Seq<int>, first: Seq<int>, i: int, value: int)
    requires
        anchors.len() == first.len() + 1,
        0 <= i < first.len(),
    ensures
        evaluates_to(second_blend(anchors, first, i), value) <==> (if first.len() == 1 {
            3 * value == anchors[0] + 2 * anchors[1]
        } else if i < first.len() - 1 {
            value == 2 * anchors[i + 1] - first[i + 1]
        } else {
            2 * value == first[i] + anchors[i + 1]
        }),
{
    let blend = second_blend(anchors, first, i);
    if first.len() == 1 {
        lemma_weighted_sum(blend, 1, 2);
        assert(blend.weights.divisor * value == 3 * value);
    } else if i < first.len() - 1 {
        lemma_weighted_sum(blend, 2, -1);
        assert(blend.weights.divisor * value == 1 * value);
    } else {
        lemma_weighted_sum(blend, 1, 1);
        assert(blend.weights.divisor * value == 2 * value);
    }
}

/// What it means for `value` to be the first control point of a lone
/// segment, written out.
proof fn lemma_lone_first_value(anchors: Seq<int>, value: int)
    ensures
        evaluates_to(lone_first_blend(anchors), value) <==> 3 * value == 2 * anchors[0] + anchors[1],
{
    let blend = lone_first_blend(anchors);
    lemma_weighted_sum(blend, 2, 1);
    assert(blend.weights.divisor * value == 3 * value);
}

/// The tangent does not jump at a joint: the curve leaves the anchor
/// between two segments the way it arrived.
pub proof fn lemma_tangent_continuous(
    anchors: Seq<int>,
    first: Seq<int>,
    second: Seq<int>,
    i: int,
)
    requires
        is_fit(anchors, first, second),
        0 <= i < first.len() - 1,
    ensures
        anchors[i + 1] - second[i] == first[i + 1] - anchors[i + 1],
{
    lemma_second_value(anchors, first, i, second[i]);
}

/// The curvature does not jump at a joint either. This is what the rows of
/// the linear system after the first demand.
pub proof fn lemma_curvature_continuous(
    anchors: Seq<int>,
    first: Seq<int>,
    second: Seq<int>,
    i: int,
)
    requires
        is_fit(anchors, first, second),
        1 <= i < first.len(),
    ensures
        first[i - 1] - 2 * second[i - 1] + anchors[i] == anchors[i] - 2 * first[i] + second[i],
{
    let n = first.len() as int;
    lemma_row_is_band(n, i, first);
    lemma_rhs_value(anchors, i);
    assert(row_dot(n, i, first, n) == rhs_values(anchors)[i]);
    lemma_second_value(anchors, first, i - 1, second[i - 1]);
    lemma_second_value(anchors, first, i, second[i]);
}

/// The curve is straight where it starts and where it ends: the curvature
/// vanishes at the first and at the last anchor. The first row of the
/// linear system and the rule for the last second control point say so.
pub proof fn lemma_natural_ends(anchors: Seq<int>, first: Seq<int>, second: Seq<int>)
    requires
        is_fit(anchors, first, second),
    ensures
        anchors[0] - 2 * first[0] + second[0] == 0,
        first.last() - 2 * second.last() + anchors.last() == 0,
{
    let n = first.len() as int;
    lemma_second_value(anchors, first, 0, second[0]);
    lemma_second_value(anchors, first, n - 1, second[n - 1]);
    if n >= 2 {
        lemma_row_is_band(n, 0, first);
        lemma_rhs_value(anchors, 0);
        assert(row_dot(n, 0, first, n) == rhs_values(anchors)[0]);
    } else {
        lemma_lone_first_value(anchors, first[0]);
    }
}

/// A lone segment obeys the rule of the last segment of a longer curve:
/// its second control point lies halfway between its first control point
/// and the last anchor.
pub proof fn lemma_lone_segment_closes_alike(anchors: Seq<int>, first: Seq<int>, second: Seq<int>)
    requires
        is_fit(anchors, first, second),
        anchors.len() == 2,
    ensures
        2 * second[0] == first[0] + anchors[1],
{
    lemma_second_value(anchors, first, 0, second[0]);
    lemma_lone_first_value(anchors, first[0]);
}

/// The anchors determine the control points: two fits through the same
/// anchors are equal.
pub proof fn lemma_fit_unique(
    anchors: Seq<int>,
    first_a: Seq<int>,
    second_a: Seq<int>,
    first_b: Seq<int>,
    second_b: Seq<int>,
)
    requires
        is_fit(anchors, first_a, second_a),
        is_fit(anchors, first_b, second_b),
    ensures
        first_a == first_b,
        second_a == second_b,
{
    let n = first_a.len() as int;
    if n >= 2 {
        lemma_solution_unique(n, first_a, first_b, rhs_values(anchors));
    } else {
        lemma_lone_first_value(anchors, first_a[0]);
        lemma_lone_first_value(anchors, first_b[0]);
        assert(first_a =~= first_b);
    }
    assert forall|i: int| 0 <= i < n implies second_a[i] == second_b[i] by {
        lemma_second_value(anchors, first_a, i, second_a[i]);
        lemma_second_value(anchors, first_b, i, second_b[i]);
    }
    assert(second_a =~= second_b);
}

/// A curve through anchors that all lie in one place stays there: every
/// control point is that place too. The weights of each row of the
/// right-hand side add up to what the entries of the matrix row add up to.
pub proof fn lemma_coincident_anchors(count: nat, place: int)
    requires
        count >= 2,
    ensures
        is_fit(
            Seq::new(count, |i: int| place),
            Seq::new((count - 1) as nat, |i: int| place),
            Seq::new((count - 1) as nat, |i: int| place),
        ),
{
    let anchors = Seq::new(count, |i: int| place);
    let points = Seq::new((count - 1) as nat, |i: int| place);
    let n = count - 1;
    if n >= 2 {
        assert forall|i: int| 0 <= i < n implies #[trigger] row_dot(n, i, points, n) == rhs_values(
            anchors,
        )[i] by {
            lemma_row_is_band(n, i, points);
            lemma_rhs_value(anchors, i);
        }
    } else {
        lemma_lone_first_value(anchors, points[0]);
    }
    assert forall|i: int| 0 <= i < n implies evaluates_to(
        second_blend(anchors, points, i),
        #[trigger] points[i],
    ) by {
        lemma_second_value(anchors, points, i, points[i]);
    }
}

} // verus!
