//! Element-wise comparison of two matrices.

use vstd::prelude::*;
use crate::mat::Mat;
use crate::number::Number;

verus! {

/// Tells whether `m1` and `m2` have the same shape and the same element in
/// every position.
pub fn compare_mats<T: Number>(m1: &Mat<T>, m2: &Mat<T>) -> (same: bool)
    ensures
        same == (m1@ == m2@),
{
    if m1.rows() != m2.rows() || m1.cols() != m2.cols() {
        return false;
    }
    let rows: usize = m1.rows();
    let cols: usize = m1.cols();
    proof {
        m1.lemma_view_wf();
        m2.lemma_view_wf();
    }
    let mut i: usize = 0;
    while i < rows
        invariant
            i <= rows,
            m1@.wf(),
            m2@.wf(),
            m1@.rows() == rows,
            m2@.rows() == rows,
            m1@.cols == cols,
            m2@.cols == cols,
            forall|r: int, c: int|
                0 <= r < i && 0 <= c < cols ==> #[trigger] m1@.lines[r][c] == m2@.lines[r][c],
        decreases rows - i,
    {
        let mut j: usize = 0;
        while j < cols
            invariant
                i < rows,
                j <= cols,
                m1@.wf(),
                m2@.wf(),
                m1@.rows() == rows,
                m2@.rows() == rows,
                m1@.cols == cols,
                m2@.cols == cols,
                forall|r: int, c: int|
                    0 <= r < i && 0 <= c < cols ==> #[trigger] m1@.lines[r][c] == m2@.lines[r][c],
                forall|c: int|
                    0 <= c < j ==> #[trigger] m1@.lines[i as int][c] == m2@.lines[i as int][c],
            decreases cols - j,
        {
            let left = m1.at(i, j);
            let right = m2.at(i, j);
            if !left.same(&right) {
                return false;
            }
            j += 1;
        }
        i += 1;
    }
    proof {
        assert forall|r: int| 0 <= r < rows implies #[trigger] m1@.lines[r] =~= m2@.lines[r] by {
        }
        assert(m1@.lines =~= m2@.lines);
    }
    true
}

} // verus!
