//! The mathematical model of a matrix and of the operations on it.

use vstd::prelude::*;
use crate::number::{one, zero, Number};

verus! {

/// A matrix as a mathematical value: a sequence of rows, each `cols` long.
///
/// The column count is kept beside the rows so that matrices without rows
/// still differ by their width.
pub struct Grid<T> {
    pub cols: nat,
    pub lines: Seq<Seq<T>>,
}

impl<T> Grid<T> {
    /// The number of rows.
    pub open spec fn rows(self) -> nat {
        self.lines.len()
    }

    /// Every row is exactly `cols` long.
    pub open spec fn wf(self) -> bool {
        forall|i: int| 0 <= i < self.lines.len() ==> (#[trigger] self.lines[i]).len() == self.cols
    }

    /// The element in row `i`, column `j`.
    pub open spec fn at(self, i: int, j: int) -> T {
        self.lines[i][j]
    }

    /// Column `j`, read from the first row to the last.
    pub open spec fn column(self, j: int) -> Seq<T> {
        Seq::new(self.rows(), |i: int| self.lines[i][j])
    }

    /// The matrix whose row `j` is this matrix's column `j`.
    pub open spec fn transposed(self) -> Grid<T> {
        Grid { cols: self.rows(), lines: Seq::new(self.cols, |j: int| self.column(j)) }
    }

    /// This matrix with the element at `(i, j)` replaced by `v`.
    pub open spec fn with_cell(self, i: int, j: int, v: T) -> Grid<T> {
        Grid { cols: self.cols, lines: self.lines.update(i, self.lines[i].update(j, v)) }
    }
}

impl<T: Number> Grid<T> {
    /// The `rows` by `cols` matrix of additive identities.
    pub open spec fn zeros(rows: nat, cols: nat) -> Grid<T> {
        Grid { cols, lines: Seq::new(rows, |i: int| Seq::new(cols, |j: int| zero::<T>())) }
    }

    /// The `rows` by `cols` matrix with ones on the diagonal and zeros
    /// elsewhere; it need not be square.
    pub open spec fn identity(rows: nat, cols: nat) -> Grid<T> {
        Grid {
            cols,
            lines: Seq::new(
                rows,
                |i: int| Seq::new(cols, |j: int| if i == j { one::<T>() } else { zero::<T>() }),
            ),
        }
    }
}

/// The sum of the first `n` products `a[t] * b[t]`, accumulated from zero
/// in increasing order of `t`.
pub open spec fn dot<T: Number>(a: Seq<T>, b: Seq<T>, n: nat) -> T
    decreases n,
{
    if n == 0 {
        zero::<T>()
    } else {
        dot(a, b, (n - 1) as nat).add_spec(a[n - 1].mul_spec(b[n - 1]))
    }
}

/// The matrix product of `a` and `b`: element `(i, j)` is the dot product of
/// row `i` of `a` with column `j` of `b`.
pub open spec fn product<T: Number>(a: Grid<T>, b: Grid<T>) -> Grid<T> {
    Grid {
        cols: b.cols,
        lines: Seq::new(
            a.rows(),
            |i: int| Seq::new(b.cols, |j: int| dot(a.lines[i], b.column(j), a.cols)),
        ),
    }
}

/// The product of `a` with the matrix whose transpose is `bt`: element
/// `(i, j)` is the dot product of row `i` of `a` with row `j` of `bt`.
pub open spec fn product_with_transposed<T: Number>(a: Grid<T>, bt: Grid<T>) -> Grid<T> {
    Grid {
        cols: bt.rows(),
        lines: Seq::new(
            a.rows(),
            |i: int| Seq::new(bt.rows(), |j: int| dot(a.lines[i], bt.lines[j], a.cols)),
        ),
    }
}

/// `start` plus the products `a[t] * b[t]` for `t` from `lo` up to `hi`,
/// added one by one in increasing order of `t`; `start` itself when the
/// range is empty.
pub open spec fn accumulate<T: Number>(start: T, a: Seq<T>, b: Seq<T>, lo: int, hi: int) -> T
    decreases hi - lo,
{
    if hi <= lo {
        start
    } else {
        accumulate(start, a, b, lo, hi - 1).add_spec(a[hi - 1].mul_spec(b[hi - 1]))
    }
}

/// Where the block that begins at `start` ends: `stride` further on, or at
/// `limit` if that comes first.
pub open spec fn block_end_spec(start: int, stride: int, limit: int) -> int {
    if start + stride < limit {
        start + stride
    } else {
        limit
    }
}

/// One tile pass over `c`: every element `(i, j)` of the block that begins
/// at `(i0, j0)` gains the products of `a`'s row `i` and `b`'s column `j`
/// over the block of the shared dimension that begins at `k0`. Elements
/// outside the block stay.
pub open spec fn tile_pass<T: Number>(
    c: Grid<T>,
    a: Grid<T>,
    b: Grid<T>,
    i0: int,
    j0: int,
    k0: int,
    stride: int,
) -> Grid<T> {
    Grid {
        cols: c.cols,
        lines: Seq::new(
            c.rows(),
            |i: int|
                Seq::new(
                    c.cols,
                    |j: int|
                        if i0 <= i < block_end_spec(i0, stride, c.rows() as int) && j0 <= j
                            < block_end_spec(j0, stride, c.cols as int) {
                            accumulate(
                                c.lines[i][j],
                                a.lines[i],
                                b.column(j),
                                k0,
                                block_end_spec(k0, stride, a.cols as int),
                            )
                        } else {
                            c.lines[i][j]
                        },
                ),
        ),
    }
}

} // verus!
