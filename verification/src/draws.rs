//! Matrices filled from small integers that were drawn elsewhere.

use vstd::prelude::*;
use crate::mat::Mat;
use crate::number::Number;

verus! {

/// The `rows` by `cols` matrix whose element `(i, j)` is what draw
/// `i * cols + j` converts to: the draws fill the matrix row by row.
///
/// There must be exactly one draw for every element.
pub fn mat_from_draws<T: Number>(rows: usize, cols: usize, draws: &Vec<u8>) -> (res: Mat<T>)
    requires
        draws@.len() == rows * cols,
    ensures
        res@.wf(),
        res@.rows() == rows,
        res@.cols == cols,
        forall|i: int, j: int|
            0 <= i < rows && 0 <= j < cols ==> #[trigger] res@.lines[i][j] == T::from_u8_spec(
                draws@[i * cols + j],
            ),
{
    assert(draws@.len() == draws.len());
    let mut res: Mat<T> = Mat::uninit(rows, cols);
    let mut next: usize = 0;
    let mut i: usize = 0;
    while i < rows
        invariant
            i <= rows,
            next == i * cols,
            draws@.len() == rows * cols,
            rows * cols <= usize::MAX,
            res@.wf(),
            res@.rows() == rows,
            res@.cols == cols,
            forall|r: int, c: int|
                0 <= r < i && 0 <= c < cols ==> #[trigger] res@.lines[r][c] == T::from_u8_spec(
                    draws@[r * cols + c],
                ),
        decreases rows - i,
    {
        let mut j: usize = 0;
        while j < cols
            invariant
                i < rows,
                j <= cols,
                next == i * cols + j,
                draws@.len() == rows * cols,
                rows * cols <= usize::MAX,
                res@.wf(),
                res@.rows() == rows,
                res@.cols == cols,
                forall|r: int, c: int|
                    0 <= r < i && 0 <= c < cols ==> #[trigger] res@.lines[r][c]
                        == T::from_u8_spec(draws@[r * cols + c]),
                forall|c: int|
                    0 <= c < j ==> #[trigger] res@.lines[i as int][c] == T::from_u8_spec(
                        draws@[i * cols + c],
                    ),
            decreases cols - j,
        {
            assert(i * cols + j < rows * cols) by (nonlinear_arith)
                requires
                    0 <= i < rows,
                    0 <= j < cols,
            ;
            let value = T::from_u8(draws[next]);
            res.put(i, j, value);
            proof {
                res.lemma_view_wf();
            }
            next += 1;
            j += 1;
        }
        assert(i * cols + cols == (i + 1) * cols) by (nonlinear_arith);
        i += 1;
    }
    res
}

} // verus!
