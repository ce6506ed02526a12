//! Segments: the four points that determine one cubic Bezier curve.

use crate::error::FitError;
use vstd::prelude::*;

verus! {

/// One cubic Bezier curve: it runs from `start` to `end`, and `first` and
/// `second` shape it on the way.
#[derive(Clone, Copy, Debug, PartialEq)]
pub struct Segment<T> {
    /// The anchor at which the segment starts.
    pub start: T,
    /// The first control point.
    pub first: T,
    /// The second control point.
    pub second: T,
    /// The anchor at which the segment ends.
    pub end: T,
}

/// The interior control points of a fit: `first[i]` and `second[i]` belong
/// to segment `i`.
#[derive(Clone, Debug, PartialEq)]
pub struct ControlPointPair<T> {
    /// The first control point of every segment.
    pub first: Vec<T>,
    /// The second control point of every segment.
    pub second: Vec<T>,
}

/// Whether the control points belong to a curve through `anchor_count`
/// anchors: one pair for each two consecutive anchors.
pub open spec fn consistent(anchor_count: nat, first_count: nat, second_count: nat) -> bool {
    first_count == second_count && anchor_count == first_count + 1
}

/// Segment `i` of the curve through `anchors` with these control points.
pub open spec fn segment_at<T>(anchors: Seq<T>, first: Seq<T>, second: Seq<T>, i: int) -> Segment<
    T,
> {
    Segment { start: anchors[i], first: first[i], second: second[i], end: anchors[i + 1] }
}

/// All segments of the curve, in anchor order.
pub open spec fn segments_of<T>(anchors: Seq<T>, first: Seq<T>, second: Seq<T>) -> Seq<Segment<T>> {
    Seq::new(first.len(), |i: int| segment_at(anchors, first, second, i))
}

/// Groups anchors and control points into segments, one for each two
/// consecutive anchors.
///
/// The call is rejected unless there is exactly one pair of control points
/// for each two consecutive anchors. A single anchor with no control points
/// gives no segment.
pub fn build_segments<T: Copy>(anchors: &Vec<T>, control_points: &ControlPointPair<T>) -> (outcome:
    Result<Vec<Segment<T>>, FitError>)
    ensures
        outcome is Ok <==> consistent(
            anchors@.len(),
            control_points.first@.len(),
            control_points.second@.len(),
        ),
        match outcome {
            Ok(segments) => {
                &&& segments@.len() == anchors@.len() - 1
                &&& segments@ == segments_of(
                    anchors@,
                    control_points.first@,
                    control_points.second@,
                )
            },
            Err(e) => e == FitError::InvalidInput,
        },
{
    let n: usize = control_points.first.len();
    if control_points.second.len() != n || anchors.len() == 0 || anchors.len() - 1 != n {
        return Err(FitError::InvalidInput);
    }
    let mut segments: Vec<Segment<T>> = Vec::new();
    let mut i: usize = 0;
    while i < n
        invariant
            n == control_points.first.len(),
            n == control_points.second.len(),
            n + 1 == anchors.len(),
            i <= n,
            segments.len() == i,
            forall|k: int|
                0 <= k < i ==> #[trigger] segments[k] == segment_at(
                    anchors@,
                    control_points.first@,
                    control_points.second@,
                    k,
                ),
        decreases n - i,
    {
        segments.push(
            Segment {
                start: anchors[i],
                first: control_points.first[i],
                second: control_points.second[i],
                end: anchors[i + 1],
            },
        );
        i += 1;
    }
    assert(segments@ =~= segments_of(anchors@, control_points.first@, control_points.second@));
    Ok(segments)
}

/// Every segment starts and ends on its two anchors, and consecutive
/// segments meet: the end of one is the start of the next.
pub proof fn lemma_segments_joined<T>(anchors: Seq<T>, first: Seq<T>, second: Seq<T>, i: int)
    requires
        consistent(anchors.len(), first.len(), second.len()),
        0 <= i < first.len(),
    ensures
        segments_of(anchors, first, second)[i].start == anchors[i],
        segments_of(anchors, first, second)[i].end == anchors[i + 1],
        i + 1 < first.len() ==> segments_of(anchors, first, second)[i].end == segments_of(
            anchors,
            first,
            second,
        )[i + 1].start,
{
}

} // verus!
