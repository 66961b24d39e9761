//! The matrix type: a flat row-major buffer with its dimensions.

use vstd::prelude::*;
use vstd::arithmetic::div_mod::lemma_fundamental_div_mod_converse;
use vstd::slice::slice_subrange;
use crate::grid::Grid;
use crate::number::{one, zero, Number};

verus! {

/// What an operation on matrices can refuse.
#[derive(Clone, Copy, Debug, PartialEq, Eq, Structural)]
pub enum MatError {
    /// The shared dimension of two operands does not agree.
    DimensionMismatch,
    /// A row or column index lies outside the matrix.
    IndexOutOfBounds,
}

/// A dense matrix. Element `(i, j)` is stored at offset `i * cols + j`.
pub struct Mat<T: Number> {
    rows: usize,
    cols: usize,
    data: Vec<T>,
}

/// An offset into a row-major buffer stays inside it.
proof fn lemma_offset_in_range(i: int, j: int, rows: int, cols: int)
    requires
        0 <= i < rows,
        0 <= j < cols,
    ensures
        0 <= i * cols <= i * cols + j < rows * cols,
        i * cols + cols <= rows * cols,
{
    assert(i * cols + cols == (i + 1) * cols) by (nonlinear_arith);
    assert((i + 1) * cols <= rows * cols) by (nonlinear_arith)
        requires
            i + 1 <= rows,
            0 <= cols,
    ;
    assert(0 <= i * cols) by (nonlinear_arith)
        requires
            0 <= i,
            0 <= cols,
    ;
}

/// Two positions with the same offset are the same position.
proof fn lemma_offset_injective(i: int, j: int, r: int, c: int, cols: int)
    requires
        0 <= i,
        0 <= r,
        0 <= j < cols,
        0 <= c < cols,
        i * cols + j == r * cols + c,
    ensures
        i == r,
        j == c,
{
    if i < r {
        assert(i * cols + cols <= r * cols) by (nonlinear_arith)
            requires
                i + 1 <= r,
                0 <= cols,
        ;
    } else if r < i {
        assert(r * cols + cols <= i * cols) by (nonlinear_arith)
            requires
                r + 1 <= i,
                0 <= cols,
        ;
    }
}

/// What the identity matrix with `cols` columns holds at offset `k` of its
/// row-major buffer.
spec fn diagonal_entry<T: Number>(k: int, cols: int) -> T {
    if k / cols == k % cols {
        one::<T>()
    } else {
        zero::<T>()
    }
}

impl<T: Number> View for Mat<T> {
    type V = Grid<T>;

    /// The rows read off the buffer. A value whose buffer has not the length
    /// that its dimensions ask for cannot exist at run time; its model is the
    /// empty matrix, so that what is said of models holds of every value.
    closed spec fn view(&self) -> Grid<T> {
        if self.inv() {
            Grid {
                cols: self.cols as nat,
                lines: Seq::new(
                    self.rows as nat,
                    |i: int| Seq::new(self.cols as nat, |j: int| self.data@[i * self.cols + j]),
                ),
            }
        } else {
            Grid { cols: 0, lines: Seq::empty() }
        }
    }
}

impl<T: Number> Mat<T> {
    #[verifier::type_invariant]
    spec fn inv(&self) -> bool {
        self.data@.len() == self.rows * self.cols
    }

    /// The model of any matrix is rectangular.
    pub proof fn lemma_view_wf(&self)
        ensures
            self@.wf(),
    {
    }

    /// The elements of any matrix are no more than a buffer can hold.
    pub proof fn lemma_size_fits(&self)
        ensures
            self@.rows() * self@.cols <= usize::MAX,
    {
        if self.inv() {
            assert(self.data@.len() == self.data.len());
        }
    }

    /// The number of rows.
    pub fn rows(&self) -> (r: usize)
        ensures
            r == self@.rows(),
    {
        proof {
            use_type_invariant(self);
        }
        self.rows
    }

    /// The number of columns.
    pub fn cols(&self) -> (r: usize)
        ensures
            r == self@.cols,
    {
        proof {
            use_type_invariant(self);
        }
        self.cols
    }

    /// The `rows` by `cols` matrix in which every element is zero.
    pub fn zeros(rows: usize, cols: usize) -> (r: Mat<T>)
        requires
            rows * cols <= usize::MAX,
        ensures
            r@ == Grid::<T>::zeros(rows as nat, cols as nat),
    {
        let buf_len: usize = rows * cols;
        let z = T::from_u8(0);
        let mut data: Vec<T> = Vec::with_capacity(buf_len);
        let mut n: usize = 0;
        while n < buf_len
            invariant
                n <= buf_len,
                data@.len() == n,
                z == zero::<T>(),
                forall|k: int| 0 <= k < n ==> data@[k] == zero::<T>(),
            decreases buf_len - n,
        {
            data.push(z);
            n += 1;
        }
        let res = Mat { rows, cols, data };
        proof {
            let target = Grid::<T>::zeros(rows as nat, cols as nat);
            assert forall|i: int| 0 <= i < rows implies #[trigger] res@.lines[i]
                == target.lines[i] by {
                assert forall|j: int| 0 <= j < cols implies #[trigger] res@.lines[i][j]
                    == target.lines[i][j] by {
                    lemma_offset_in_range(i, j, rows as int, cols as int);
                }
                assert(res@.lines[i] =~= target.lines[i]);
            }
            assert(res@.lines =~= target.lines);
        }
        res
    }

    /// A `rows` by `cols` matrix whose elements are left unspecified: only
    /// its shape is promised, and a caller is expected to write every
    /// element before reading any.
    pub fn uninit(rows: usize, cols: usize) -> (r: Mat<T>)
        requires
            rows * cols <= usize::MAX,
        ensures
            r@.rows() == rows,
            r@.cols == cols,
            r@.wf(),
    {
        Mat::zeros(rows, cols)
    }

    /// The `rows` by `cols` matrix with one where the row and column
    /// indices agree and zero elsewhere.
    pub fn identity(rows: usize, cols: usize) -> (r: Mat<T>)
        requires
            rows * cols <= usize::MAX,
        ensures
            r@ == Grid::<T>::identity(rows as nat, cols as nat),
    {
        let buf_len: usize = rows * cols;
        let mut data: Vec<T> = Vec::with_capacity(buf_len);
        let mut i: usize = 0;
        while i < rows
            invariant
                i <= rows,
                data@.len() == i * cols,
                forall|k: int|
                    0 <= k < data@.len() ==> #[trigger] data@[k] == diagonal_entry::<T>(
                        k,
                        cols as int,
                    ),
            decreases rows - i,
        {
            let mut j: usize = 0;
            while j < cols
                invariant
                    i < rows,
                    j <= cols,
                    data@.len() == i * cols + j,
                    forall|k: int|
                        0 <= k < data@.len() ==> #[trigger] data@[k] == diagonal_entry::<T>(
                            k,
                            cols as int,
                        ),
                decreases cols - j,
            {
                proof {
                    lemma_fundamental_div_mod_converse(
                        i * cols + j,
                        cols as int,
                        i as int,
                        j as int,
                    );
                }
                if i == j {
                    data.push(T::from_u8(1));
                } else {
                    data.push(T::from_u8(0));
                }
                j += 1;
            }
            proof {
                assert(i * cols + cols == (i + 1) * cols) by (nonlinear_arith);
            }
            i += 1;
        }
        let res = Mat { rows, cols, data };
        proof {
            let target = Grid::<T>::identity(rows as nat, cols as nat);
            assert forall|i: int| 0 <= i < rows implies #[trigger] res@.lines[i]
                == target.lines[i] by {
                assert forall|j: int| 0 <= j < cols implies #[trigger] res@.lines[i][j]
                    == target.lines[i][j] by {
                    lemma_offset_in_range(i, j, rows as int, cols as int);
                    lemma_fundamental_div_mod_converse(i * cols + j, cols as int, i, j);
                }
                assert(res@.lines[i] =~= target.lines[i]);
            }
            assert(res@.lines =~= target.lines);
        }
        res
    }

    /// A new matrix whose element `(j, i)` is this matrix's element
    /// `(i, j)`; this matrix is left as it is.
    pub fn get_transposed(&self) -> (r: Mat<T>)
        ensures
            r@ == self@.transposed(),
    {
        proof {
            use_type_invariant(self);
            assert(self.data@.len() == self.data.len());
            assert(self.cols * self.rows == self.rows * self.cols) by (nonlinear_arith);
        }
        let mut res: Mat<T> = Mat::zeros(self.cols, self.rows);
        let mut i: usize = 0;
        while i < self.rows
            invariant
                i <= self.rows,
                self@.rows() == self.rows,
                self@.cols == self.cols,
                res@.wf(),
                res@.cols == self.rows,
                res@.rows() == self.cols,
                forall|r: int, c: int|
                    0 <= r < i && 0 <= c < self.cols ==> #[trigger] res@.lines[c][r]
                        == self@.lines[r][c],
            decreases self.rows - i,
        {
            let mut j: usize = 0;
            while j < self.cols
                invariant
                    i < self.rows,
                    self@.rows() == self.rows,
                    self@.cols == self.cols,
                    j <= self.cols,
                    res@.wf(),
                    res@.cols == self.rows,
                    res@.rows() == self.cols,
                    forall|r: int, c: int|
                        0 <= r < i && 0 <= c < self.cols ==> #[trigger] res@.lines[c][r]
                            == self@.lines[r][c],
                    forall|c: int|
                        0 <= c < j ==> #[trigger] res@.lines[c][i as int] == self@.lines[i as int][c],
                decreases self.cols - j,
            {
                let value = self.at(i, j);
                res.put(j, i, value);
                proof {
                    res.lemma_view_wf();
                }
                j += 1;
            }
            i += 1;
        }
        proof {
            let target = self@.transposed();
            assert forall|c: int| 0 <= c < self.cols implies #[trigger] res@.lines[c]
                =~= target.lines[c] by {
            }
            assert(res@.lines =~= target.lines);
        }
        res
    }

    /// The element at `(row, col)`, for a position known to be inside.
    pub fn at(&self, row: usize, col: usize) -> (r: T)
        requires
            row < self@.rows(),
            col < self@.cols,
        ensures
            r == self@.lines[row as int][col as int],
    {
        proof {
            use_type_invariant(self);
            assert(self.data@.len() == self.data.len());
            lemma_offset_in_range(row as int, col as int, self.rows as int, self.cols as int);
        }
        self.data[row * self.cols + col]
    }

    /// Row `index`, as the stretch of the buffer that holds it.
    pub fn row(&self, index: usize) -> (r: &[T])
        requires
            index < self@.rows(),
        ensures
            r@ == self@.lines[index as int],
    {
        proof {
            use_type_invariant(self);
            assert(self.data@.len() == self.data.len());
            assert(0 <= index * self.cols && index * self.cols + self.cols <= self.rows
                * self.cols) by (nonlinear_arith)
                requires
                    0 <= index < self.rows,
                    0 <= self.cols,
            ;
        }
        let start: usize = index * self.cols;
        let r = slice_subrange(self.data.as_slice(), start, start + self.cols);
        assert(r@ =~= self@.lines[index as int]);
        r
    }

    /// Replaces the element at `(row, col)`, for a position known to be
    /// inside; every other element stays.
    pub fn put(&mut self, row: usize, col: usize, value: T)
        requires
            row < old(self)@.rows(),
            col < old(self)@.cols,
        ensures
            final(self)@ == old(self)@.with_cell(row as int, col as int, value),
    {
        proof {
            use_type_invariant(&*self);
            assert(self.data@.len() == self.data.len());
            lemma_offset_in_range(row as int, col as int, self.rows as int, self.cols as int);
        }
        let ghost before = *self;
        let offset: usize = row * self.cols + col;
        self.data[offset] = value;
        proof {
            let cols = self.cols as int;
            let target = before@.with_cell(row as int, col as int, value);
            assert forall|i: int| 0 <= i < self.rows implies #[trigger] self@.lines[i]
                == target.lines[i] by {
                assert forall|j: int| 0 <= j < cols implies #[trigger] self@.lines[i][j]
                    == target.lines[i][j] by {
                    lemma_offset_in_range(i, j, self.rows as int, cols);
                    if i * cols + j == row * cols + col {
                        lemma_offset_injective(i, j, row as int, col as int, cols);
                    }
                }
                assert(self@.lines[i] =~= target.lines[i]);
            }
            assert(self@.lines =~= target.lines);
        }
    }

    /// The element at `(row, col)`, or `IndexOutOfBounds` when the position
    /// lies outside the matrix.
    pub fn get(&self, row: usize, col: usize) -> (r: Result<T, MatError>)
        ensures
            row < self@.rows() && col < self@.cols ==> r == Ok::<T, MatError>(
                self@.lines[row as int][col as int],
            ),
            !(row < self@.rows() && col < self@.cols) ==> r == Err::<T, MatError>(
                MatError::IndexOutOfBounds,
            ),
    {
        proof {
            use_type_invariant(self);
        }
        if row < self.rows && col < self.cols {
            Ok(self.at(row, col))
        } else {
            Err(MatError::IndexOutOfBounds)
        }
    }

    /// Replaces the element at `(row, col)`, or leaves the matrix as it was
    /// and reports `IndexOutOfBounds` when the position lies outside.
    pub fn set(&mut self, row: usize, col: usize, value: T) -> (r: Result<(), MatError>)
        ensures
            row < old(self)@.rows() && col < old(self)@.cols ==> r == Ok::<(), MatError>(())
                && final(self)@ == old(self)@.with_cell(row as int, col as int, value),
            !(row < old(self)@.rows() && col < old(self)@.cols) ==> r == Err::<(), MatError>(
                MatError::IndexOutOfBounds,
            ) && final(self)@ == old(self)@,
    {
        proof {
            use_type_invariant(&*self);
        }
        if row < self.rows && col < self.cols {
            self.put(row, col, value);
            Ok(())
        } else {
            Err(MatError::IndexOutOfBounds)
        }
    }
}

} // verus!
