//! A dense integer matrix kept in nalgebra's dynamic storage.
//!
//! The matrix itself is opaque to the verifier. Its contents are named by
//! [`matrix_rows`], and each operation below states what nalgebra does to
//! them; nothing in this file is proved beyond the bounds check in
//! [`IntMatrix::entry`].

use vstd::prelude::*;

verus! {

/// A matrix of `i32` entries held in a `nalgebra::DMatrix`.
#[verifier::external_body]
pub struct IntMatrix {
    inner: nalgebra::DMatrix<i32>,
}

/// The entries of a matrix, row by row: `matrix_rows(m)[i][j]` is the entry
/// in row `i` and column `j`.
pub uninterp spec fn matrix_rows(m: IntMatrix) -> Seq<Seq<i32>>;

/// `rows` has `nrows` rows of `ncols` entries each.
pub open spec fn is_grid(rows: Seq<Seq<i32>>, nrows: int, ncols: int) -> bool {
    &&& rows.len() == nrows
    &&& forall|i: int| 0 <= i < nrows ==> (#[trigger] rows[i]).len() == ncols
}

/// Whether `(i, j)` lies on the main diagonal of the block that starts at
/// `start` and spans `shape` rows and columns.
pub open spec fn on_block_diagonal(
    start: (usize, usize),
    shape: (usize, usize),
    i: int,
    j: int,
) -> bool {
    &&& i - start.0 == j - start.1
    &&& 0 <= i - start.0 < shape.0
    &&& 0 <= j - start.1 < shape.1
}

impl View for IntMatrix {
    type V = Seq<Seq<i32>>;

    open spec fn view(&self) -> Seq<Seq<i32>> {
        matrix_rows(*self)
    }
}

impl IntMatrix {
    /// `DMatrix::from_diagonal_element(n, n, value)`: an `n` by `n` matrix
    /// with `value` on the main diagonal and zero everywhere else. The
    /// bound keeps the `n * n` entries of four bytes within the size that
    /// one allocation may have; as with any allocation, running out of
    /// memory is not described.
    #[verifier::external_body]
    pub(crate) fn diagonal(n: usize, value: i32) -> (m: IntMatrix)
        requires
            n * n * 4 <= isize::MAX,
        ensures
            is_grid(matrix_rows(m), n as int, n as int),
            forall|i: int, j: int|
                0 <= i < n && 0 <= j < n ==> #[trigger] matrix_rows(m)[i][j] == (if i == j {
                    value
                } else {
                    0i32
                }),
    {
        IntMatrix { inner: nalgebra::DMatrix::from_diagonal_element(n, n, value) }
    }

    /// `slice_mut(start, shape)` followed by `fill_diagonal(value)` on the
    /// slice: the entries on the main diagonal of that block become `value`,
    /// every other entry and the shape of the matrix stay as they were.
    /// nalgebra panics unless the block lies inside the matrix; a matrix
    /// without rows is left out, because its rows do not tell its width.
    #[verifier::external_body]
    pub(crate) fn fill_block_diagonal(
        &mut self,
        start: (usize, usize),
        shape: (usize, usize),
        value: i32,
    )
        requires
            0 < matrix_rows(*old(self)).len(),
            start.0 + shape.0 <= matrix_rows(*old(self)).len(),
            forall|i: int|
                0 <= i < matrix_rows(*old(self)).len() ==> start.1 + shape.1 <= (
                #[trigger] matrix_rows(*old(self))[i]).len(),
        ensures
            matrix_rows(*final(self)).len() == matrix_rows(*old(self)).len(),
            forall|i: int|
                0 <= i < matrix_rows(*old(self)).len() ==> (#[trigger] matrix_rows(
                    *final(self),
                )[i]).len() == matrix_rows(*old(self))[i].len(),
            forall|i: int, j: int|
                0 <= i < matrix_rows(*old(self)).len() && 0 <= j < matrix_rows(*old(self))[i].len()
                    ==> #[trigger] matrix_rows(*final(self))[i][j] == (if on_block_diagonal(
                    start,
                    shape,
                    i,
                    j,
                ) {
                    value
                } else {
                    matrix_rows(*old(self))[i][j]
                }),
    {
        self.inner.slice_mut(start, shape).fill_diagonal(value);
    }

    /// Index assignment `m[(row, col)] = value`, which panics outside the
    /// matrix: one entry changes, nothing else does.
    #[verifier::external_body]
    pub(crate) fn set(&mut self, row: usize, col: usize, value: i32)
        requires
            row < matrix_rows(*old(self)).len(),
            col < matrix_rows(*old(self))[row as int].len(),
        ensures
            matrix_rows(*final(self)) == matrix_rows(*old(self)).update(
                row as int,
                matrix_rows(*old(self))[row as int].update(col as int, value),
            ),
    {
        self.inner[(row, col)] = value;
    }

    /// Indexing `m[(row, col)]`, which panics outside the matrix.
    #[verifier::external_body]
    pub(crate) fn get(&self, row: usize, col: usize) -> (value: i32)
        requires
            row < matrix_rows(*self).len(),
            col < matrix_rows(*self)[row as int].len(),
        ensures
            value == matrix_rows(*self)[row as int][col as int],
    {
        self.inner[(row, col)]
    }

    /// `shape()`: the number of rows, and the number of columns, which is
    /// the length of every row.
    #[verifier::external_body]
    pub(crate) fn dimensions(&self) -> (shape: (usize, usize))
        ensures
            is_grid(matrix_rows(*self), shape.0 as int, shape.1 as int),
    {
        self.inner.shape()
    }

    /// The entry in row `row` and column `col`, or `None` where the matrix
    /// has no such entry.
    pub fn entry(&self, row: usize, col: usize) -> (found: Option<i32>)
        ensures
            found == (if row < self@.len() && col < self@[row as int].len() {
                Some(self@[row as int][col as int])
            } else {
                None
            }),
    {
        let (nrows, ncols) = self.dimensions();
        if row < nrows && col < ncols {
            Some(self.get(row, col))
        } else {
            None
        }
    }
}

} // verus!
