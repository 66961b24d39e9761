//! The multiplication strategies.

use vstd::prelude::*;
use crate::grid::{accumulate, block_end_spec, dot, product, product_with_transposed, tile_pass};
use crate::laws::{lemma_accumulate_extends_dot, lemma_product_via_transpose};
use crate::mat::{Mat, MatError};
use crate::number::Number;

verus! {

/// The product of `m1` and `m2` by the textbook triple loop: rows of `m1`
/// against columns of `m2`.
///
/// The operands must agree on the shared dimension, else the call is
/// refused with `DimensionMismatch`.
pub fn mul_normal<T: Number>(m1: &Mat<T>, m2: &Mat<T>) -> (res: Result<Mat<T>, MatError>)
    requires
        m1@.cols == m2@.rows() ==> m1@.rows() * m2@.cols <= usize::MAX,
    ensures
        m1@.cols == m2@.rows() ==> (res matches Ok(m) && m@ == product(m1@, m2@)),
        m1@.cols != m2@.rows() ==> (res matches Err(e) && e == MatError::DimensionMismatch),
{
    if m1.cols() != m2.rows() {
        return Err(MatError::DimensionMismatch);
    }
    let rows: usize = m1.rows();
    let cols: usize = m2.cols();
    let shared: usize = m1.cols();
    let mut res: Mat<T> = Mat::uninit(rows, cols);
    proof {
        m1.lemma_view_wf();
        m2.lemma_view_wf();
    }
    let mut i: usize = 0;
    while i < rows
        invariant
            i <= rows,
            m1@.wf(),
            m2@.wf(),
            m1@.rows() == rows,
            m1@.cols == shared,
            m2@.rows() == shared,
            m2@.cols == cols,
            res@.wf(),
            res@.rows() == rows,
            res@.cols == cols,
            forall|r: int, c: int|
                0 <= r < i && 0 <= c < cols ==> #[trigger] res@.lines[r][c] == dot(
                    m1@.lines[r],
                    m2@.column(c),
                    shared as nat,
                ),
        decreases rows - i,
    {
        let mut j: usize = 0;
        while j < cols
            invariant
                i < rows,
                j <= cols,
                m1@.wf(),
                m2@.wf(),
                m1@.rows() == rows,
                m1@.cols == shared,
                m2@.rows() == shared,
                m2@.cols == cols,
                res@.wf(),
                res@.rows() == rows,
                res@.cols == cols,
                forall|r: int, c: int|
                    0 <= r < i && 0 <= c < cols ==> #[trigger] res@.lines[r][c] == dot(
                        m1@.lines[r],
                        m2@.column(c),
                        shared as nat,
                    ),
                forall|c: int|
                    0 <= c < j ==> #[trigger] res@.lines[i as int][c] == dot(
                        m1@.lines[i as int],
                        m2@.column(c),
                        shared as nat,
                    ),
            decreases cols - j,
        {
            let mut val: T = T::from_u8(0);
            let mut k: usize = 0;
            while k < shared
                invariant
                    i < rows,
                    j < cols,
                    k <= shared,
                    m1@.wf(),
                    m2@.wf(),
                    m1@.rows() == rows,
                    m1@.cols == shared,
                    m2@.rows() == shared,
                    m2@.cols == cols,
                    val == dot(m1@.lines[i as int], m2@.column(j as int), k as nat),
                decreases shared - k,
            {
                val = val.plus(m1.at(i, k).times(m2.at(k, j)));
                k += 1;
            }
            res.put(i, j, val);
            proof {
                res.lemma_view_wf();
            }
            j += 1;
        }
        i += 1;
    }
    proof {
        let target = product(m1@, m2@);
        assert forall|r: int| 0 <= r < rows implies #[trigger] res@.lines[r]
            =~= target.lines[r] by {
        }
        assert(res@.lines =~= target.lines);
    }
    Ok(res)
}

/// The product of `m1` with the matrix whose transpose is `m2`: rows of
/// `m1` against rows of `m2`, so that both operands are read in storage
/// order.
///
/// Here the operands must agree on their column counts, else the call is
/// refused with `DimensionMismatch`.
pub fn mul_with_transposed<T: Number>(m1: &Mat<T>, m2: &Mat<T>) -> (res: Result<
    Mat<T>,
    MatError,
>)
    requires
        m1@.cols == m2@.cols ==> m1@.rows() * m2@.rows() <= usize::MAX,
    ensures
        m1@.cols == m2@.cols ==> (res matches Ok(m) && m@ == product_with_transposed(m1@, m2@)),
        m1@.cols != m2@.cols ==> (res matches Err(e) && e == MatError::DimensionMismatch),
{
    if m1.cols() != m2.cols() {
        return Err(MatError::DimensionMismatch);
    }
    let rows: usize = m1.rows();
    let cols: usize = m2.rows();
    let shared: usize = m1.cols();
    let mut res: Mat<T> = Mat::uninit(rows, cols);
    proof {
        m1.lemma_view_wf();
        m2.lemma_view_wf();
    }
    let mut i: usize = 0;
    while i < rows
        invariant
            i <= rows,
            m1@.wf(),
            m2@.wf(),
            m1@.rows() == rows,
            m1@.cols == shared,
            m2@.rows() == cols,
            m2@.cols == shared,
            res@.wf(),
            res@.rows() == rows,
            res@.cols == cols,
            forall|r: int, c: int|
                0 <= r < i && 0 <= c < cols ==> #[trigger] res@.lines[r][c] == dot(
                    m1@.lines[r],
                    m2@.lines[c],
                    shared as nat,
                ),
        decreases rows - i,
    {
        let mut j: usize = 0;
        while j < cols
            invariant
                i < rows,
                j <= cols,
                m1@.wf(),
                m2@.wf(),
                m1@.rows() == rows,
                m1@.cols == shared,
                m2@.rows() == cols,
                m2@.cols == shared,
                res@.wf(),
                res@.rows() == rows,
                res@.cols == cols,
                forall|r: int, c: int|
                    0 <= r < i && 0 <= c < cols ==> #[trigger] res@.lines[r][c] == dot(
                        m1@.lines[r],
                        m2@.lines[c],
                        shared as nat,
                    ),
                forall|c: int|
                    0 <= c < j ==> #[trigger] res@.lines[i as int][c] == dot(
                        m1@.lines[i as int],
                        m2@.lines[c],
                        shared as nat,
                    ),
            decreases cols - j,
        {
            let mut val: T = T::from_u8(0);
            let mut k: usize = 0;
            while k < shared
                invariant
                    i < rows,
                    j < cols,
                    k <= shared,
                    m1@.wf(),
                    m2@.wf(),
                    m1@.rows() == rows,
                    m1@.cols == shared,
                    m2@.rows() == cols,
                    m2@.cols == shared,
                    val == dot(m1@.lines[i as int], m2@.lines[j as int], k as nat),
                decreases shared - k,
            {
                val = val.plus(m1.at(i, k).times(m2.at(j, k)));
                k += 1;
            }
            res.put(i, j, val);
            proof {
                res.lemma_view_wf();
            }
            j += 1;
        }
        i += 1;
    }
    proof {
        let target = product_with_transposed(m1@, m2@);
        assert forall|r: int| 0 <= r < rows implies #[trigger] res@.lines[r]
            =~= target.lines[r] by {
        }
        assert(res@.lines =~= target.lines);
    }
    Ok(res)
}

/// The product of `m1` and `m2`, computed by copying `m2` into its
/// transpose and multiplying against that.
pub fn mul_transposed<T: Number>(m1: &Mat<T>, m2: &Mat<T>) -> (res: Result<Mat<T>, MatError>)
    requires
        m1@.cols == m2@.rows() ==> m1@.rows() * m2@.cols <= usize::MAX,
    ensures
        m1@.cols == m2@.rows() ==> (res matches Ok(m) && m@ == product(m1@, m2@)),
        m1@.cols != m2@.rows() ==> (res matches Err(e) && e == MatError::DimensionMismatch),
{
    if m1.cols() != m2.rows() {
        return Err(MatError::DimensionMismatch);
    }
    let transposed = m2.get_transposed();
    proof {
        lemma_product_via_transpose(m1@, m2@);
    }
    mul_with_transposed(m1, &transposed)
}

/// The end of the block that begins at `start`, clipped to `limit`.
fn block_end(start: usize, stride: usize, limit: usize) -> (end: usize)
    ensures
        end == block_end_spec(start as int, stride as int, limit as int),
{
    if start >= limit {
        limit
    } else if limit - start <= stride {
        limit
    } else {
        start + stride
    }
}

/// One tile pass: adds to every element of the block of `res` that begins
/// at `(outer_i, outer_j)` the products over the block of the shared
/// dimension that begins at `outer_k`. Blocks are `stride` long and clipped
/// at the matrix edges; within the block the row index runs outermost, the
/// shared index in the middle and the column index innermost.
pub fn unrolled_step<T: Number>(
    res: &mut Mat<T>,
    m1: &Mat<T>,
    m2: &Mat<T>,
    outer_i: usize,
    outer_j: usize,
    outer_k: usize,
    stride: usize,
)
    requires
        old(res)@.rows() == m1@.rows(),
        old(res)@.cols == m2@.cols,
        m1@.cols == m2@.rows(),
    ensures
        final(res)@ == tile_pass(
            old(res)@,
            m1@,
            m2@,
            outer_i as int,
            outer_j as int,
            outer_k as int,
            stride as int,
        ),
{
    let ghost before = res@;
    let rows: usize = res.rows();
    let cols: usize = res.cols();
    let shared: usize = m1.cols();
    let i_end: usize = block_end(outer_i, stride, rows);
    let j_end: usize = block_end(outer_j, stride, cols);
    let k_end: usize = block_end(outer_k, stride, shared);
    proof {
        m1.lemma_view_wf();
        m2.lemma_view_wf();
        res.lemma_view_wf();
    }
    let mut i: usize = outer_i;
    while i < i_end
        invariant
            outer_i <= i,
            i_end <= rows,
            j_end <= cols,
            k_end <= shared,
            m1@.wf(),
            m2@.wf(),
            before.wf(),
            m1@.rows() == rows,
            m1@.cols == shared,
            m2@.rows() == shared,
            m2@.cols == cols,
            before.rows() == rows,
            before.cols == cols,
            res@.wf(),
            res@.rows() == rows,
            res@.cols == cols,
            forall|r: int, c: int|
                0 <= r < rows && 0 <= c < cols ==> #[trigger] res@.lines[r][c] == (if outer_i <= r
                    < i && r < i_end && outer_j <= c < j_end {
                    accumulate(
                        before.lines[r][c],
                        m1@.lines[r],
                        m2@.column(c),
                        outer_k as int,
                        k_end as int,
                    )
                } else {
                    before.lines[r][c]
                }),
        decreases i_end - i,
    {
        let mut k: usize = outer_k;
        while k < k_end
            invariant
                outer_i <= i < i_end,
                outer_k <= k,
                k <= k_end || k == outer_k,
                i_end <= rows,
                j_end <= cols,
                k_end <= shared,
                m1@.wf(),
                m2@.wf(),
                before.wf(),
                m1@.rows() == rows,
                m1@.cols == shared,
                m2@.rows() == shared,
                m2@.cols == cols,
                before.rows() == rows,
                before.cols == cols,
                res@.wf(),
                res@.rows() == rows,
                res@.cols == cols,
                forall|r: int, c: int|
                    0 <= r < rows && 0 <= c < cols ==> #[trigger] res@.lines[r][c] == (
                    if outer_i <= r < i && outer_j <= c < j_end {
                        accumulate(
                            before.lines[r][c],
                            m1@.lines[r],
                            m2@.column(c),
                            outer_k as int,
                            k_end as int,
                        )
                    } else if r == i && outer_j <= c < j_end {
                        accumulate(
                            before.lines[r][c],
                            m1@.lines[r],
                            m2@.column(c),
                            outer_k as int,
                            k as int,
                        )
                    } else {
                        before.lines[r][c]
                    }),
            decreases k_end - k,
        {
            let mut j: usize = outer_j;
            while j < j_end
                invariant
                    outer_i <= i < i_end,
                    outer_k <= k < k_end,
                    outer_j <= j,
                    i_end <= rows,
                    j_end <= cols,
                    k_end <= shared,
                    m1@.wf(),
                    m2@.wf(),
                    before.wf(),
                    m1@.rows() == rows,
                    m1@.cols == shared,
                    m2@.rows() == shared,
                    m2@.cols == cols,
                    before.rows() == rows,
                    before.cols == cols,
                    res@.wf(),
                    res@.rows() == rows,
                    res@.cols == cols,
                    forall|r: int, c: int|
                        0 <= r < rows && 0 <= c < cols ==> #[trigger] res@.lines[r][c] == (
                        if outer_i <= r < i && outer_j <= c < j_end {
                            accumulate(
                                before.lines[r][c],
                                m1@.lines[r],
                                m2@.column(c),
                                outer_k as int,
                                k_end as int,
                            )
                        } else if r == i && outer_j <= c < j && c < j_end {
                            accumulate(
                                before.lines[r][c],
                                m1@.lines[r],
                                m2@.column(c),
                                outer_k as int,
                                k + 1,
                            )
                        } else if r == i && j <= c < j_end {
                            accumulate(
                                before.lines[r][c],
                                m1@.lines[r],
                                m2@.column(c),
                                outer_k as int,
                                k as int,
                            )
                        } else {
                            before.lines[r][c]
                        }),
                decreases j_end - j,
            {
                let value = res.at(i, j).plus(m1.at(i, k).times(m2.at(k, j)));
                res.put(i, j, value);
                proof {
                    res.lemma_view_wf();
                }
                j += 1;
            }
            k += 1;
        }
        i += 1;
    }
    proof {
        let target = tile_pass(
            before,
            m1@,
            m2@,
            outer_i as int,
            outer_j as int,
            outer_k as int,
            stride as int,
        );
        assert forall|r: int| 0 <= r < rows implies #[trigger] res@.lines[r]
            =~= target.lines[r] by {
            assert forall|c: int| 0 <= c < cols implies #[trigger] res@.lines[r][c]
                == target.lines[r][c] by {
            }
        }
        assert(res@.lines =~= target.lines);
    }
}

/// The number of bytes in one cache line.
pub const CACHE_LINE_SIZE: usize = 64;

/// The product of `m1` and `m2`, accumulated tile by tile with tiles
/// `stride` long in every direction.
///
/// For each element the products are still added in increasing order of
/// the shared index, so the result is that of `mul_normal` whatever the
/// stride.
pub fn mul_unrolled_by<T: Number>(m1: &Mat<T>, m2: &Mat<T>, stride: usize) -> (res: Result<
    Mat<T>,
    MatError,
>)
    requires
        stride > 0,
        m1@.cols == m2@.rows() ==> m1@.rows() * m2@.cols <= usize::MAX,
    ensures
        m1@.cols == m2@.rows() ==> (res matches Ok(m) && m@ == product(m1@, m2@)),
        m1@.cols != m2@.rows() ==> (res matches Err(e) && e == MatError::DimensionMismatch),
{
    if m1.cols() != m2.rows() {
        return Err(MatError::DimensionMismatch);
    }
    let rows: usize = m1.rows();
    let cols: usize = m2.cols();
    let shared: usize = m1.cols();
    let mut res: Mat<T> = Mat::zeros(rows, cols);
    proof {
        m1.lemma_view_wf();
        m2.lemma_view_wf();
        res.lemma_view_wf();
    }
    let mut i: usize = 0;
    while i < rows
        invariant
            stride > 0,
            i <= rows,
            m1@.wf(),
            m2@.wf(),
            m1@.rows() == rows,
            m1@.cols == shared,
            m2@.rows() == shared,
            m2@.cols == cols,
            res@.wf(),
            res@.rows() == rows,
            res@.cols == cols,
            forall|r: int, c: int|
                0 <= r < rows && 0 <= c < cols ==> #[trigger] res@.lines[r][c] == dot(
                    m1@.lines[r],
                    m2@.column(c),
                    if r < i {
                        shared as nat
                    } else {
                        0
                    },
                ),
        decreases rows - i,
    {
        let i_end: usize = block_end(i, stride, rows);
        let mut j: usize = 0;
        while j < cols
            invariant
                stride > 0,
                i < i_end <= rows,
                i_end == block_end_spec(i as int, stride as int, rows as int),
                j <= cols,
                m1@.wf(),
                m2@.wf(),
                m1@.rows() == rows,
                m1@.cols == shared,
                m2@.rows() == shared,
                m2@.cols == cols,
                res@.wf(),
                res@.rows() == rows,
                res@.cols == cols,
                forall|r: int, c: int|
                    0 <= r < rows && 0 <= c < cols ==> #[trigger] res@.lines[r][c] == dot(
                        m1@.lines[r],
                        m2@.column(c),
                        if r < i || (r < i_end && c < j) {
                            shared as nat
                        } else {
                            0
                        },
                    ),
            decreases cols - j,
        {
            let j_end: usize = block_end(j, stride, cols);
            let mut k: usize = 0;
            while k < shared
                invariant
                    stride > 0,
                    i < i_end <= rows,
                    i_end == block_end_spec(i as int, stride as int, rows as int),
                    j < j_end <= cols,
                    j_end == block_end_spec(j as int, stride as int, cols as int),
                    k <= shared,
                    m1@.wf(),
                    m2@.wf(),
                    m1@.rows() == rows,
                    m1@.cols == shared,
                    m2@.rows() == shared,
                    m2@.cols == cols,
                    res@.wf(),
                    res@.rows() == rows,
                    res@.cols == cols,
                    forall|r: int, c: int|
                        0 <= r < rows && 0 <= c < cols ==> #[trigger] res@.lines[r][c] == dot(
                            m1@.lines[r],
                            m2@.column(c),
                            if r < i || (r < i_end && c < j) {
                                shared as nat
                            } else if i <= r < i_end && j <= c < j_end {
                                k as nat
                            } else {
                                0
                            },
                        ),
                decreases shared - k,
            {
                let k_end: usize = block_end(k, stride, shared);
                unrolled_step(&mut res, m1, m2, i, j, k, stride);
                proof {
                    res.lemma_view_wf();
                    assert forall|r: int, c: int|
                        i <= r < i_end && j <= c < j_end implies #[trigger] res@.lines[r][c]
                        == dot(m1@.lines[r], m2@.column(c), k_end as nat) by {
                        lemma_accumulate_extends_dot(
                            m1@.lines[r],
                            m2@.column(c),
                            k as int,
                            k_end as int,
                        );
                    }
                }
                k = k_end;
            }
            j = j_end;
        }
        i = i_end;
    }
    proof {
        let target = product(m1@, m2@);
        assert forall|r: int| 0 <= r < rows implies #[trigger] res@.lines[r]
            =~= target.lines[r] by {
        }
        assert(res@.lines =~= target.lines);
    }
    Ok(res)
}

/// The product of `m1` and `m2`, accumulated tile by tile, with as many
/// elements to a tile edge as fit into one cache line.
///
/// The element type must have a size, and one element must fit into a
/// cache line: otherwise there is no tile length to go by.
pub fn mul_unrolled<T: Number>(m1: &Mat<T>, m2: &Mat<T>) -> (res: Result<Mat<T>, MatError>)
    requires
        0 < vstd::layout::size_of::<T>() <= CACHE_LINE_SIZE,
        m1@.cols == m2@.rows() ==> m1@.rows() * m2@.cols <= usize::MAX,
    ensures
        m1@.cols == m2@.rows() ==> (res matches Ok(m) && m@ == product(m1@, m2@)),
        m1@.cols != m2@.rows() ==> (res matches Err(e) && e == MatError::DimensionMismatch),
{
    let size: usize = core::mem::size_of::<T>();
    let vals_per_cache_line: usize = CACHE_LINE_SIZE / size;
    assert(vals_per_cache_line > 0) by (nonlinear_arith)
        requires
            0 < size <= 64,
            vals_per_cache_line == 64int / (size as int),
    ;
    mul_unrolled_by(m1, m2, vals_per_cache_line)
}

} // verus!
