use bezier_interpolation::system::coefficient_matrix;

fn rows_of(n: usize) -> Vec<Vec<i32>> {
    let m = coefficient_matrix(n);
    (0..n)
        .map(|i| (0..n).map(|j| m.entry(i, j).expect("entry inside the matrix")).collect())
        .collect()
}

#[test]
fn three_segments_give_the_fixed_pattern() {
    assert_eq!(rows_of(3), vec![vec![2, 1, 0], vec![1, 4, 1], vec![0, 2, 7]]);
}

#[test]
fn two_segments_have_only_boundary_rows() {
    assert_eq!(rows_of(2), vec![vec![2, 1], vec![2, 7]]);
}

#[test]
fn five_segments_repeat_the_interior_row() {
    assert_eq!(
        rows_of(5),
        vec![
            vec![2, 1, 0, 0, 0],
            vec![1, 4, 1, 0, 0],
            vec![0, 1, 4, 1, 0],
            vec![0, 0, 1, 4, 1],
            vec![0, 0, 0, 2, 7],
        ]
    );
}

#[test]
fn entries_outside_the_matrix_are_absent() {
    let m = coefficient_matrix(4);
    assert_eq!(m.entry(3, 3), Some(7));
    assert_eq!(m.entry(4, 0), None);
    assert_eq!(m.entry(0, 4), None);
    assert_eq!(m.entry(4, 4), None);
    assert_eq!(m.entry(usize::MAX, 0), None);
}

#[test]
fn every_row_is_strictly_diagonally_dominant() {
    for n in 2..12usize {
        let rows = rows_of(n);
        for i in 0..n {
            let others: i32 = (0..n).filter(|&j| j != i).map(|j| rows[i][j].abs()).sum();
            assert!(rows[i][i].abs() > others, "row {} of {}", i, n);
        }
    }
}

#[test]
fn entries_away_from_the_diagonal_are_zero() {
    let n = 9usize;
    let rows = rows_of(n);
    for i in 0..n {
        for j in 0..n {
            if j + 1 < i || j > i + 1 {
                assert_eq!(rows[i][j], 0);
            } else {
                assert_ne!(rows[i][j], 0);
            }
        }
    }
}
