//! Algebraic laws of the matrix model.

use vstd::prelude::*;
use crate::grid::{accumulate, dot, product, product_with_transposed, Grid};
use crate::number::{one, zero, Number};

verus! {

/// Multiplying by `b` is multiplying against the rows of `b`'s transpose:
/// the strategy that transposes first and the one that reads columns
/// compute the same matrix.
pub proof fn lemma_product_via_transpose<T: Number>(a: Grid<T>, b: Grid<T>)
    ensures
        product(a, b) == product_with_transposed(a, b.transposed()),
{
    let left = product(a, b);
    let right = product_with_transposed(a, b.transposed());
    assert forall|i: int| 0 <= i < a.rows() implies #[trigger] left.lines[i]
        =~= right.lines[i] by {
    }
    assert(left.lines =~= right.lines);
}

/// Transposing twice gives the matrix back.
pub proof fn lemma_transpose_involution<T>(a: Grid<T>)
    requires
        a.wf(),
    ensures
        a.transposed().transposed() == a,
{
    let back = a.transposed().transposed();
    assert forall|i: int| 0 <= i < a.rows() implies #[trigger] back.lines[i] =~= a.lines[i] by {
    }
    assert(back.lines =~= a.lines);
}

/// Multiplying against a transposed operand is multiplying by its
/// transpose.
pub proof fn lemma_product_against_transposed<T: Number>(a: Grid<T>, bt: Grid<T>)
    requires
        bt.wf(),
    ensures
        product_with_transposed(a, bt) == product(a, bt.transposed()),
{
    lemma_transpose_involution(bt);
    lemma_product_via_transpose(a, bt.transposed());
}

/// A dot product taken up to `lo` and then carried on up to `hi` is the dot
/// product taken up to `hi` in one go.
pub proof fn lemma_accumulate_extends_dot<T: Number>(a: Seq<T>, b: Seq<T>, lo: int, hi: int)
    requires
        0 <= lo <= hi,
    ensures
        accumulate(dot(a, b, lo as nat), a, b, lo, hi) == dot(a, b, hi as nat),
    decreases hi - lo,
{
    if lo < hi {
        lemma_accumulate_extends_dot(a, b, lo, hi - 1);
    }
}

/// A dot product against a vector of zeros is zero.
proof fn lemma_dot_zero_right<T: Number>(a: Seq<T>, b: Seq<T>, n: nat)
    requires
        forall|t: int| 0 <= t < n ==> b[t] == zero::<T>(),
    ensures
        dot(a, b, n) == zero::<T>(),
    decreases n,
{
    if n > 0 {
        lemma_dot_zero_right(a, b, (n - 1) as nat);
        T::lemma_mul_zero(a[n - 1]);
        T::lemma_add_zero(zero::<T>());
    }
}

/// A dot product against the unit vector at `p` picks out element `p`.
proof fn lemma_dot_unit_right<T: Number>(a: Seq<T>, b: Seq<T>, n: nat, p: int)
    requires
        forall|t: int|
            0 <= t < n ==> b[t] == (if t == p {
                one::<T>()
            } else {
                zero::<T>()
            }),
    ensures
        dot(a, b, n) == (if 0 <= p < n {
            a[p]
        } else {
            zero::<T>()
        }),
    decreases n,
{
    if n > 0 {
        lemma_dot_unit_right(a, b, (n - 1) as nat, p);
        T::lemma_mul_zero(a[n - 1]);
        T::lemma_mul_one(a[n - 1]);
        T::lemma_add_zero(a[n - 1]);
        T::lemma_add_zero(a[p]);
        T::lemma_add_zero(zero::<T>());
    }
}

/// A dot product of the unit vector at `p` with `b` picks out element `p`.
proof fn lemma_dot_unit_left<T: Number>(a: Seq<T>, b: Seq<T>, n: nat, p: int)
    requires
        forall|t: int|
            0 <= t < n ==> a[t] == (if t == p {
                one::<T>()
            } else {
                zero::<T>()
            }),
    ensures
        dot(a, b, n) == (if 0 <= p < n {
            b[p]
        } else {
            zero::<T>()
        }),
    decreases n,
{
    if n > 0 {
        lemma_dot_unit_left(a, b, (n - 1) as nat, p);
        T::lemma_mul_zero(b[n - 1]);
        T::lemma_mul_one(b[n - 1]);
        T::lemma_add_zero(b[n - 1]);
        T::lemma_add_zero(b[p]);
        T::lemma_add_zero(zero::<T>());
    }
}

/// Multiplying by the square identity on the right gives the matrix back.
pub proof fn lemma_identity_right<T: Number>(a: Grid<T>)
    requires
        a.wf(),
    ensures
        product(a, Grid::<T>::identity(a.cols, a.cols)) == a,
{
    let unit = Grid::<T>::identity(a.cols, a.cols);
    let left = product(a, unit);
    assert forall|i: int| 0 <= i < a.rows() implies #[trigger] left.lines[i] =~= a.lines[i] by {
        assert forall|j: int| 0 <= j < a.cols implies #[trigger] left.lines[i][j]
            == a.lines[i][j] by {
            lemma_dot_unit_right(a.lines[i], unit.column(j), a.cols, j);
        }
    }
    assert(left.lines =~= a.lines);
}

/// Multiplying by the square identity on the left gives the matrix back.
pub proof fn lemma_identity_left<T: Number>(a: Grid<T>)
    requires
        a.wf(),
    ensures
        product(Grid::<T>::identity(a.rows(), a.rows()), a) == a,
{
    let unit = Grid::<T>::identity(a.rows(), a.rows());
    let left = product(unit, a);
    assert forall|i: int| 0 <= i < a.rows() implies #[trigger] left.lines[i] =~= a.lines[i] by {
        assert forall|j: int| 0 <= j < a.cols implies #[trigger] left.lines[i][j]
            == a.lines[i][j] by {
            lemma_dot_unit_left(unit.lines[i], a.column(j), a.rows(), i);
        }
    }
    assert(left.lines =~= a.lines);
}

/// Multiplying by a matrix of zeros gives a matrix of zeros, whatever its
/// width `n`.
pub proof fn lemma_zero_right<T: Number>(a: Grid<T>, n: nat)
    ensures
        product(a, Grid::<T>::zeros(a.cols, n)) == Grid::<T>::zeros(a.rows(), n),
{
    let nothing = Grid::<T>::zeros(a.cols, n);
    let left = product(a, nothing);
    let right = Grid::<T>::zeros(a.rows(), n);
    assert forall|i: int| 0 <= i < a.rows() implies #[trigger] left.lines[i]
        =~= right.lines[i] by {
        assert forall|j: int| 0 <= j < n implies #[trigger] left.lines[i][j]
            == right.lines[i][j] by {
            lemma_dot_zero_right(a.lines[i], nothing.column(j), a.cols);
        }
    }
    assert(left.lines =~= right.lines);
}

/// With nothing along the shared dimension, every product is the matrix of
/// zeros of the expected shape, by columns and against a transposed
/// operand alike.
pub proof fn lemma_empty_shared_dimension<T: Number>(a: Grid<T>, b: Grid<T>)
    requires
        a.cols == 0,
    ensures
        product(a, b) == Grid::<T>::zeros(a.rows(), b.cols),
        product_with_transposed(a, b) == Grid::<T>::zeros(a.rows(), b.rows()),
{
    let by_columns = product(a, b);
    let by_rows = product_with_transposed(a, b);
    assert forall|i: int| 0 <= i < a.rows() implies #[trigger] by_columns.lines[i]
        =~= Grid::<T>::zeros(a.rows(), b.cols).lines[i] by {
    }
    assert(by_columns.lines =~= Grid::<T>::zeros(a.rows(), b.cols).lines);
    assert forall|i: int| 0 <= i < a.rows() implies #[trigger] by_rows.lines[i]
        =~= Grid::<T>::zeros(a.rows(), b.rows()).lines[i] by {
    }
    assert(by_rows.lines =~= Grid::<T>::zeros(a.rows(), b.rows()).lines);
}

} // verus!
