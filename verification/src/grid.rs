//! The mathematical model of matrices and vectors: grids and sequences of
//! integers, and the operations of matrix algebra on them.

use vstd::prelude::*;
use crate::matrix_number::MatrixNumber;

verus! {

/// The integers that the cells of a vector stand for.
pub open spec fn vector_view<T: MatrixNumber, const N: usize>(v: [T; N]) -> Seq<int> {
    Seq::new(N as nat, |j: int| v[j].value())
}

/// The integers that the cells of a two-dimensional array stand for, row by row.
pub open spec fn grid_view<T: MatrixNumber, const R: usize, const C: usize>(
    g: [[T; C]; R],
) -> Seq<Seq<int>> {
    Seq::new(R as nat, |i: int| vector_view(g[i]))
}

/// Whether `g` has `rows` rows of `cols` cells each.
pub open spec fn has_shape(g: Seq<Seq<int>>, rows: nat, cols: nat) -> bool {
    &&& g.len() == rows
    &&& forall|i: int| 0 <= i < rows ==> (#[trigger] g[i]).len() == cols
}

/// The grid of the given shape that holds 0 everywhere.
pub open spec fn zero_grid(rows: nat, cols: nat) -> Seq<Seq<int>> {
    Seq::new(rows, |i: int| Seq::new(cols, |j: int| 0int))
}

/// The square grid that holds 1 on the main diagonal and 0 elsewhere.
pub open spec fn identity_grid(n: nat) -> Seq<Seq<int>> {
    Seq::new(n, |i: int| Seq::new(n, |j: int| if i == j { 1int } else { 0int }))
}

/// The cell-wise sum of two grids of the same shape.
pub open spec fn sum_grid(a: Seq<Seq<int>>, b: Seq<Seq<int>>) -> Seq<Seq<int>> {
    Seq::new(a.len(), |i: int| Seq::new(a[i].len(), |j: int| a[i][j] + b[i][j]))
}

/// Whether every cell of the sum of `a` and `b` is representable in `T`.
pub open spec fn sum_fits<T: MatrixNumber>(a: Seq<Seq<int>>, b: Seq<Seq<int>>) -> bool {
    forall|i: int, j: int|
        0 <= i < a.len() && 0 <= j < a[i].len() ==> T::representable(
            #[trigger] a[i][j] + b[i][j],
        )
}

/// The sum of the first `n` products `x[j] * y[j]`, taken from left to right.
pub open spec fn dot(x: Seq<int>, y: Seq<int>, n: nat) -> int
    decreases n,
{
    if n == 0 {
        0
    } else {
        dot(x, y, (n - 1) as nat) + x[n - 1] * y[n - 1]
    }
}

/// Whether product number `j` of a dot product, and the sum up to and
/// including it, are representable in `T`.
pub open spec fn dot_step_fits<T: MatrixNumber>(x: Seq<int>, y: Seq<int>, j: int) -> bool {
    &&& T::representable(x[j] * y[j])
    &&& T::representable(dot(x, y, (j + 1) as nat))
}

/// Whether the first `n` steps of the dot product of `x` and `y` stay within `T`.
pub open spec fn dot_fits<T: MatrixNumber>(x: Seq<int>, y: Seq<int>, n: nat) -> bool {
    forall|j: int| 0 <= j < n ==> #[trigger] dot_step_fits::<T>(x, y, j)
}

/// Column `k` of a grid, from the top row down.
pub open spec fn column(b: Seq<Seq<int>>, k: int) -> Seq<int> {
    Seq::new(b.len(), |j: int| b[j][k])
}

/// The grid `a` with column `k` replaced by `col`.
pub open spec fn with_column(a: Seq<Seq<int>>, col: Seq<int>, k: int) -> Seq<Seq<int>> {
    Seq::new(a.len(), |i: int| a[i].update(k, col[i]))
}

/// The product of a grid and a vector: cell `i` is the dot product of row `i`
/// of `a` with `v`.
pub open spec fn product_vector(a: Seq<Seq<int>>, v: Seq<int>) -> Seq<int> {
    Seq::new(a.len(), |i: int| dot(a[i], v, v.len()))
}

/// Whether every step of the product of `a` and `v` stays within `T`.
pub open spec fn product_vector_fits<T: MatrixNumber>(a: Seq<Seq<int>>, v: Seq<int>) -> bool {
    forall|i: int| 0 <= i < a.len() ==> dot_fits::<T>(#[trigger] a[i], v, v.len())
}

/// The product of two grids, the right one with `cols` columns: cell `(i, k)`
/// is the dot product of row `i` of `a` with column `k` of `b`.
pub open spec fn product_grid(a: Seq<Seq<int>>, b: Seq<Seq<int>>, cols: nat) -> Seq<Seq<int>> {
    Seq::new(a.len(), |i: int| Seq::new(cols, |k: int| dot(a[i], column(b, k), b.len())))
}

/// Whether every step of the product of `a` and `b` stays within `T`.
pub open spec fn product_grid_fits<T: MatrixNumber>(
    a: Seq<Seq<int>>,
    b: Seq<Seq<int>>,
    cols: nat,
) -> bool {
    forall|k: int| 0 <= k < cols ==> product_vector_fits::<T>(a, #[trigger] column(b, k))
}

/// A dot product reads only the first `n` cells of its arguments.
pub proof fn lemma_dot_reads_prefix(x1: Seq<int>, y1: Seq<int>, x2: Seq<int>, y2: Seq<int>, n: nat)
    requires
        forall|j: int| 0 <= j < n ==> x1[j] == x2[j] && y1[j] == y2[j],
    ensures
        dot(x1, y1, n) == dot(x2, y2, n),
    decreases n,
{
    if n > 0 {
        lemma_dot_reads_prefix(x1, y1, x2, y2, (n - 1) as nat);
    }
}

/// A dot product may stop where, from there on, one factor of every product
/// is zero.
pub proof fn lemma_dot_skips_zero_tail(x: Seq<int>, y: Seq<int>, m: nat, n: nat)
    requires
        m <= n,
        forall|j: int| m <= j < n ==> x[j] == 0 || y[j] == 0,
    ensures
        dot(x, y, n) == dot(x, y, m),
    decreases n,
{
    if n > m {
        lemma_dot_skips_zero_tail(x, y, m, (n - 1) as nat);
        assert(x[n - 1] * y[n - 1] == 0) by (nonlinear_arith)
            requires
                x[n - 1] == 0 || y[n - 1] == 0,
        ;
    }
}

} // verus!
