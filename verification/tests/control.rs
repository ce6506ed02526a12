use bezier_interpolation::blend::{Blend, Weights};
use bezier_interpolation::control::{first_points, second_points, solved_points, FirstPoints};
use bezier_interpolation::error::FitError;

fn weights(near: i32, far: i32, divisor: i32) -> Weights {
    Weights { near, far, divisor }
}

#[test]
fn no_anchor_is_invalid() {
    let anchors: Vec<i64> = vec![];
    assert_eq!(first_points(&anchors), Err(FitError::InvalidInput));
}

#[test]
fn one_anchor_is_invalid() {
    assert_eq!(first_points(&vec![7i64]), Err(FitError::InvalidInput));
}

#[test]
fn two_anchors_need_no_system() {
    assert_eq!(
        first_points(&vec![10i64, 20]),
        Ok(FirstPoints::Direct(Blend { weights: weights(2, 1, 3), near: 10, far: 20 }))
    );
}

#[test]
fn three_anchors_have_only_boundary_rows() {
    assert_eq!(
        first_points(&vec![10i64, 20, 30]),
        Ok(FirstPoints::System(vec![
            Blend { weights: weights(1, 2, 1), near: 10, far: 20 },
            Blend { weights: weights(8, 1, 1), near: 20, far: 30 },
        ]))
    );
}

#[test]
fn five_anchors_give_four_rows() {
    assert_eq!(
        first_points(&vec![1i64, 2, 3, 4, 5]),
        Ok(FirstPoints::System(vec![
            Blend { weights: weights(1, 2, 1), near: 1, far: 2 },
            Blend { weights: weights(4, 2, 1), near: 2, far: 3 },
            Blend { weights: weights(4, 2, 1), near: 3, far: 4 },
            Blend { weights: weights(8, 1, 1), near: 4, far: 5 },
        ]))
    );
}

#[test]
fn asking_twice_gives_the_same_rows() {
    let anchors = vec![3i64, -1, 4, 1, -5, 9];
    assert_eq!(first_points(&anchors), first_points(&anchors));
}

#[test]
fn a_singular_system_fails_the_fit() {
    let anchors = vec![1i64, 2, 3];
    assert_eq!(solved_points(&anchors, None), Err(FitError::SingularSystem));
}

#[test]
fn a_solution_of_the_right_length_is_accepted() {
    let anchors = vec![1i64, 2, 3];
    assert_eq!(solved_points(&anchors, Some(vec![8, 9])), Ok(vec![8, 9]));
}

#[test]
fn a_solution_of_the_wrong_length_is_rejected() {
    let anchors = vec![1i64, 2, 3];
    assert_eq!(solved_points(&anchors, Some(vec![8])), Err(FitError::InvalidInput));
    assert_eq!(solved_points(&anchors, Some(vec![8, 9, 10])), Err(FitError::InvalidInput));
    assert_eq!(solved_points(&anchors, Some(vec![])), Err(FitError::InvalidInput));
}

#[test]
fn too_few_anchors_come_before_the_solver() {
    assert_eq!(solved_points(&vec![1i64], None), Err(FitError::InvalidInput));
    assert_eq!(solved_points(&vec![1i64], Some(vec![])), Err(FitError::InvalidInput));
    let nothing: Vec<i64> = vec![];
    assert_eq!(solved_points(&nothing, Some(vec![5])), Err(FitError::InvalidInput));
}

#[test]
fn a_lone_segment_closes_from_its_anchors() {
    assert_eq!(
        second_points(&vec![10i64, 20], &vec![13]),
        Ok(vec![Blend { weights: weights(1, 2, 3), near: 10, far: 20 }])
    );
}

#[test]
fn later_segments_mirror_and_the_last_halves() {
    let anchors = vec![10i64, 20, 30, 40];
    let first = vec![11i64, 21, 31];
    assert_eq!(
        second_points(&anchors, &first),
        Ok(vec![
            Blend { weights: weights(2, -1, 1), near: 20, far: 21 },
            Blend { weights: weights(2, -1, 1), near: 30, far: 31 },
            Blend { weights: weights(1, 1, 2), near: 31, far: 40 },
        ])
    );
}

#[test]
fn two_segments_mirror_once() {
    assert_eq!(
        second_points(&vec![10i64, 20, 30], &vec![11, 21]),
        Ok(vec![
            Blend { weights: weights(2, -1, 1), near: 20, far: 21 },
            Blend { weights: weights(1, 1, 2), near: 21, far: 30 },
        ])
    );
}

#[test]
fn second_points_need_one_first_point_per_segment() {
    let anchors = vec![10i64, 20, 30];
    assert_eq!(second_points(&anchors, &vec![1]), Err(FitError::InvalidInput));
    assert_eq!(second_points(&anchors, &vec![1, 2, 3]), Err(FitError::InvalidInput));
    assert_eq!(second_points(&vec![10i64], &vec![]), Err(FitError::InvalidInput));
    let nothing: Vec<i64> = vec![];
    assert_eq!(second_points(&nothing, &vec![]), Err(FitError::InvalidInput));
}

#[test]
fn every_closing_blend_is_affine() {
    let anchors = vec![10i64, 20, 30, 40, 50];
    let first = vec![1i64, 2, 3, 4];
    for blend in second_points(&anchors, &first).expect("lengths fit") {
        assert_ne!(blend.weights.divisor, 0);
        assert_eq!(blend.weights.near + blend.weights.far, blend.weights.divisor);
    }
}
