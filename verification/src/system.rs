//! The linear system whose solution is the first control point of every
//! segment.
//!
//! For `n >= 2` segments the system is `A · first = D`. `A` is the `n` by
//! `n` matrix of [`coefficient`]; row `i` of `D` combines the anchors `i`
//! and `i + 1` with the weights of [`rhs_weights`].

use crate::blend::Weights;
use crate::matrix::IntMatrix;
use vstd::prelude::*;

verus! {

/// Entry `(i, j)` of the coefficient matrix for `n` segments.
///
/// The matrix is tridiagonal. Its first row is `2 1`, its interior rows are
/// `1 4 1` around the diagonal, and its last row ends in `2 7`.
pub open spec fn coefficient(n: int, i: int, j: int) -> int {
    if j == i {
        if i == 0 {
            2
        } else if i == n - 1 {
            7
        } else {
            4
        }
    } else if j == i + 1 {
        1
    } else if j == i - 1 {
        if i == n - 1 {
            2
        } else {
            1
        }
    } else {
        0
    }
}

/// The whole coefficient matrix for `n` segments, row by row.
pub open spec fn coefficient_rows(n: int) -> Seq<Seq<i32>> {
    Seq::new(n as nat, |i: int| Seq::new(n as nat, |j: int| coefficient(n, i, j) as i32))
}

/// The weights with which row `row` of the right-hand side combines the
/// anchors `row` and `row + 1`: `1, 2` in the first row, `8, 1` in the last,
/// and `4, 2` in between.
pub open spec fn rhs_weights(n: int, row: int) -> Weights {
    if row == n - 1 {
        Weights { near: 8, far: 1, divisor: 1 }
    } else if row == 0 {
        Weights { near: 1, far: 2, divisor: 1 }
    } else {
        Weights { near: 4, far: 2, divisor: 1 }
    }
}

/// Builds the coefficient matrix for `n` segments.
///
/// The matrix is dense, so `n * n` entries of four bytes have to fit in one
/// allocation.
pub fn coefficient_matrix(n: usize) -> (m: IntMatrix)
    requires
        2 <= n,
        n * n * 4 <= isize::MAX,
    ensures
        m@ == coefficient_rows(n as int),
{
    let mut m = IntMatrix::diagonal(n, 4);
    m.fill_block_diagonal((1, 0), (n - 1, n), 1);
    m.fill_block_diagonal((0, 1), (n, n - 1), 1);
    m.set(0, 0, 2);
    m.set(n - 1, n - 1, 7);
    m.set(n - 1, n - 2, 2);
    proof {
        let want = coefficient_rows(n as int);
        assert(m@.len() == want.len());
        assert forall|i: int| 0 <= i < n implies #[trigger] m@[i] == want[i] by {
            assert(m@[i].len() == n);
            assert forall|j: int| 0 <= j < n implies #[trigger] m@[i][j] == want[i][j] by {}
            assert(m@[i] =~= want[i]);
        }
        assert(m@ =~= want);
    }
    m
}

/// The absolute value of an integer.
pub open spec fn abs(v: int) -> int {
    if v < 0 {
        -v
    } else {
        v
    }
}

/// The sum of `|coefficient(n, i, k)|` over the columns `k < j` other than
/// the diagonal.
pub open spec fn off_diagonal_weight(n: int, i: int, j: int) -> int
    decreases j,
{
    if j <= 0 {
        0
    } else {
        off_diagonal_weight(n, i, j - 1) + (if j - 1 == i {
            0
        } else {
            abs(coefficient(n, i, j - 1))
        })
    }
}

/// The sum of `coefficient(n, i, k) * x[k]` over the columns `k < j`. With
/// `j == n` this is row `i` of the product `A · x`.
pub open spec fn row_dot(n: int, i: int, x: Seq<int>, j: int) -> int
    decreases j,
{
    if j <= 0 {
        0
    } else {
        row_dot(n, i, x, j - 1) + coefficient(n, i, j - 1) * x[j - 1]
    }
}

/// Row `i` of `A · x` written out: the three terms around the diagonal,
/// with the coefficients of the first, an interior, or the last row.
pub open spec fn band_row(n: int, i: int, x: Seq<int>) -> int {
    if i == 0 {
        2 * x[0] + x[1]
    } else if i == n - 1 {
        2 * x[i - 1] + 7 * x[i]
    } else {
        x[i - 1] + 4 * x[i] + x[i + 1]
    }
}

/// Whether `x` solves `A · x = d` for `n` segments, over the integers.
pub open spec fn solves(n: int, x: Seq<int>, d: Seq<int>) -> bool {
    &&& x.len() == n
    &&& d.len() == n
    &&& forall|i: int| 0 <= i < n ==> #[trigger] row_dot(n, i, x, n) == d[i]
}

/// The coefficient matrix is tridiagonal: an entry more than one column
/// away from the diagonal is zero.
pub proof fn lemma_coefficients_banded(n: int, i: int, j: int)
    requires
        j < i - 1 || j > i + 1,
    ensures
        coefficient(n, i, j) == 0,
{
}

/// The coefficient matrix is strictly diagonally dominant: in every row the
/// diagonal entry exceeds the sum of the absolute values of all others.
pub proof fn lemma_strictly_diagonally_dominant(n: int, i: int)
    requires
        2 <= n,
        0 <= i < n,
    ensures
        abs(coefficient(n, i, i)) > off_diagonal_weight(n, i, n),
{
    lemma_off_diagonal_weight(n, i, n);
}

/// What the off-diagonal entries of row `i` weigh up to column `j`: the
/// entry left of the diagonal and the entry right of it, once `j` is past
/// them.
proof fn lemma_off_diagonal_weight(n: int, i: int, j: int)
    requires
        2 <= n,
        0 <= i < n,
        0 <= j <= n,
    ensures
        off_diagonal_weight(n, i, j) == (if 0 <= i - 1 < j {
            coefficient(n, i, i - 1)
        } else {
            0
        }) + (if i + 1 < j {
            coefficient(n, i, i + 1)
        } else {
            0
        }),
    decreases j,
{
    if j > 0 {
        lemma_off_diagonal_weight(n, i, j - 1);
    }
}

/// What row `i` of `A · x` adds up to over the columns `k < j`: the terms
/// around the diagonal that `j` is past.
proof fn lemma_row_dot_prefix(n: int, i: int, x: Seq<int>, j: int)
    requires
        2 <= n,
        0 <= i < n,
        0 <= j <= n,
    ensures
        row_dot(n, i, x, j) == (if 0 <= i - 1 < j {
            coefficient(n, i, i - 1) * x[i - 1]
        } else {
            0
        }) + (if i < j {
            coefficient(n, i, i) * x[i]
        } else {
            0
        }) + (if i + 1 < j {
            coefficient(n, i, i + 1) * x[i + 1]
        } else {
            0
        }),
    decreases j,
{
    if j > 0 {
        lemma_row_dot_prefix(n, i, x, j - 1);
        if j - 1 < i - 1 || j - 1 > i + 1 {
            assert(coefficient(n, i, j - 1) * x[j - 1] == 0);
        }
    }
}

/// Row `i` of `A · x` has only the three terms around the diagonal.
pub proof fn lemma_row_is_band(n: int, i: int, x: Seq<int>)
    requires
        2 <= n,
        0 <= i < n,
    ensures
        row_dot(n, i, x, n) == band_row(n, i, x),
{
    lemma_row_dot_prefix(n, i, x, n);
}

/// An index at which `|z[k]|` is largest.
proof fn lemma_peak(z: Seq<int>) -> (k: int)
    requires
        z.len() > 0,
    ensures
        0 <= k < z.len(),
        forall|j: int| 0 <= j < z.len() ==> abs(#[trigger] z[j]) <= abs(z[k]),
    decreases z.len(),
{
    if z.len() == 1 {
        0
    } else {
        let head = z.drop_last();
        let k = lemma_peak(head);
        assert forall|j: int| 0 <= j < head.len() implies abs(#[trigger] z[j]) <= abs(z[k]) by {
            assert(head[j] == z[j]);
        }
        if abs(z.last()) > abs(z[k]) {
            z.len() - 1
        } else {
            k
        }
    }
}

/// Only the zero vector is sent to zero by the coefficient matrix.
proof fn lemma_kernel_is_zero(n: int, z: Seq<int>)
    requires
        2 <= n,
        z.len() == n,
        forall|i: int| 0 <= i < n ==> #[trigger] band_row(n, i, z) == 0,
    ensures
        forall|k: int| 0 <= k < n ==> #[trigger] z[k] == 0,
{
    let p = lemma_peak(z);
    assert(band_row(n, p, z) == 0);
    if p == 0 {
        assert(abs(z[1]) <= abs(z[p]));
    } else if p == n - 1 {
        assert(abs(z[p - 1]) <= abs(z[p]));
    } else {
        assert(abs(z[p - 1]) <= abs(z[p]));
        assert(abs(z[p + 1]) <= abs(z[p]));
    }
    assert(z[p] == 0);
    assert forall|k: int| 0 <= k < n implies #[trigger] z[k] == 0 by {
        assert(abs(z[k]) <= abs(z[p]));
    }
}

/// The linear system has at most one solution: two vectors that solve it
/// for the same right-hand side are equal.
pub proof fn lemma_solution_unique(n: int, x: Seq<int>, y: Seq<int>, d: Seq<int>)
    requires
        2 <= n,
        solves(n, x, d),
        solves(n, y, d),
    ensures
        x == y,
{
    let z = Seq::new(n as nat, |k: int| x[k] - y[k]);
    assert forall|i: int| 0 <= i < n implies #[trigger] band_row(n, i, z) == 0 by {
        lemma_row_is_band(n, i, x);
        lemma_row_is_band(n, i, y);
        assert(row_dot(n, i, x, n) == d[i]);
        assert(row_dot(n, i, y, n) == d[i]);
    }
    lemma_kernel_is_zero(n, z);
    assert forall|k: int| 0 <= k < n implies x[k] == y[k] by {
        assert(z[k] == 0);
    }
    assert(x =~= y);
}


} // verus!
