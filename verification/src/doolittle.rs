//! LU decomposition by Doolittle's method, without pivoting, on grids of
//! integers: what each pivot step writes, when the steps stay within a scalar
//! type, and the determinant that the two factors give.

use vstd::prelude::*;
use crate::grid::{
    column, dot, dot_fits, has_shape, lemma_dot_reads_prefix, lemma_dot_skips_zero_tail,
    product_grid, zero_grid,
};
use crate::matrix_number::{quotient, MatrixNumber};

verus! {

/// What pivot step `i` writes to cell `(i, k)` of the upper factor, given the
/// factors `l` and `u` as the earlier steps left them.
pub open spec fn upper_entry(
    a: Seq<Seq<int>>,
    l: Seq<Seq<int>>,
    u: Seq<Seq<int>>,
    i: int,
    k: int,
) -> int {
    a[i][k] - dot(l[i], column(u, k), i as nat)
}

/// What pivot step `i` writes to cell `(k, i)` of the lower factor, below the
/// diagonal, given `l` as the earlier steps left it and `u` with row `i`
/// already written. The divisor is the pivot `u[i][i]`.
pub open spec fn lower_entry(
    a: Seq<Seq<int>>,
    l: Seq<Seq<int>>,
    u: Seq<Seq<int>>,
    k: int,
    i: int,
) -> int {
    quotient(a[k][i] - dot(l[k], column(u, i), i as nat), u[i][i])
}

/// The upper factor after the first half of pivot step `i`: row `i` is written
/// from the diagonal to the right, every other cell is kept.
pub open spec fn fill_upper(
    a: Seq<Seq<int>>,
    l: Seq<Seq<int>>,
    u: Seq<Seq<int>>,
    i: int,
) -> Seq<Seq<int>> {
    Seq::new(
        u.len(),
        |r: int|
            Seq::new(
                u[r].len(),
                |c: int|
                    if r == i && c >= i {
                        upper_entry(a, l, u, i, c)
                    } else {
                        u[r][c]
                    },
            ),
    )
}

/// The lower factor after the second half of pivot step `i`: column `i` gets 1
/// on the diagonal and the quotients below it, every other cell is kept.
pub open spec fn fill_lower(
    a: Seq<Seq<int>>,
    l: Seq<Seq<int>>,
    u: Seq<Seq<int>>,
    i: int,
) -> Seq<Seq<int>> {
    Seq::new(
        l.len(),
        |r: int|
            Seq::new(
                l[r].len(),
                |c: int|
                    if c == i && r == i {
                        1
                    } else if c == i && r > i {
                        lower_entry(a, l, u, r, i)
                    } else {
                        l[r][c]
                    },
            ),
    )
}

/// The lower and the upper factor of the `n` by `n` grid `a` after the first
/// `steps` pivot steps. Both start as all zero.
pub open spec fn after_steps(a: Seq<Seq<int>>, n: nat, steps: nat) -> (
    Seq<Seq<int>>,
    Seq<Seq<int>>,
)
    decreases steps,
{
    if steps == 0 {
        (zero_grid(n, n), zero_grid(n, n))
    } else {
        let (l, u) = after_steps(a, n, (steps - 1) as nat);
        let filled = fill_upper(a, l, u, steps - 1);
        (fill_lower(a, l, filled, steps - 1), filled)
    }
}

/// The lower factor of the square grid `a`.
pub open spec fn lower_factor(a: Seq<Seq<int>>) -> Seq<Seq<int>> {
    after_steps(a, a.len(), a.len()).0
}

/// The upper factor of the square grid `a`.
pub open spec fn upper_factor(a: Seq<Seq<int>>) -> Seq<Seq<int>> {
    after_steps(a, a.len(), a.len()).1
}

/// Whether cell `(i, k)` of the upper factor can be computed within `T`.
pub open spec fn upper_entry_fits<T: MatrixNumber>(
    a: Seq<Seq<int>>,
    l: Seq<Seq<int>>,
    u: Seq<Seq<int>>,
    i: int,
    k: int,
) -> bool {
    &&& dot_fits::<T>(l[i], column(u, k), i as nat)
    &&& T::representable(upper_entry(a, l, u, i, k))
}

/// Whether cell `(k, i)` of the lower factor can be computed within `T`: the
/// pivot is not zero and no intermediate result leaves the type.
pub open spec fn lower_entry_fits<T: MatrixNumber>(
    a: Seq<Seq<int>>,
    l: Seq<Seq<int>>,
    u: Seq<Seq<int>>,
    k: int,
    i: int,
) -> bool {
    &&& dot_fits::<T>(l[k], column(u, i), i as nat)
    &&& T::representable(a[k][i] - dot(l[k], column(u, i), i as nat))
    &&& u[i][i] != 0
    &&& T::representable(lower_entry(a, l, u, k, i))
}

/// Whether pivot step `i` on the `n` by `n` grid `a` can be computed within `T`.
pub open spec fn step_fits<T: MatrixNumber>(a: Seq<Seq<int>>, n: nat, i: int) -> bool {
    let (l, u) = after_steps(a, n, i as nat);
    let filled = fill_upper(a, l, u, i);
    &&& forall|k: int| i <= k < n ==> #[trigger] upper_entry_fits::<T>(a, l, u, i, k)
    &&& forall|k: int| i < k < n ==> #[trigger] lower_entry_fits::<T>(a, l, filled, k, i)
}

/// Whether the square grid `a` can be decomposed within `T`: no pivot that is
/// divided by is zero, and no intermediate result leaves the type.
pub open spec fn decomposable<T: MatrixNumber>(a: Seq<Seq<int>>) -> bool {
    forall|i: int| 0 <= i < a.len() ==> #[trigger] step_fits::<T>(a, a.len(), i)
}

/// The product of the first `n` cells of the main diagonal, from the top left.
pub open spec fn diagonal_product(m: Seq<Seq<int>>, n: nat) -> int
    decreases n,
{
    if n == 0 {
        1
    } else {
        diagonal_product(m, (n - 1) as nat) * m[n - 1][n - 1]
    }
}

/// Whether every partial product of the first `n` diagonal cells is
/// representable in `T`.
pub open spec fn diagonal_fits<T: MatrixNumber>(m: Seq<Seq<int>>, n: nat) -> bool {
    forall|k: nat| 1 <= k <= n ==> T::representable(#[trigger] diagonal_product(m, k))
}

/// The determinant as the decomposition gives it: the sole cell of a 1 by 1
/// grid, else the product of the diagonal of the lower factor times that of
/// the upper factor.
pub open spec fn determinant_of(a: Seq<Seq<int>>) -> int {
    if a.len() == 1 {
        a[0][0]
    } else {
        diagonal_product(lower_factor(a), a.len()) * diagonal_product(upper_factor(a), a.len())
    }
}

/// Whether the two diagonal products and their product stay within `T`.
pub open spec fn determinant_fits<T: MatrixNumber>(a: Seq<Seq<int>>) -> bool {
    &&& diagonal_fits::<T>(lower_factor(a), a.len())
    &&& diagonal_fits::<T>(upper_factor(a), a.len())
    &&& T::representable(determinant_of(a))
}

/// Whether every division of pivot step `i` is exact: the quotient times the
/// pivot gives back the dividend.
pub open spec fn divides_exactly(a: Seq<Seq<int>>, n: nat, i: int) -> bool {
    let (l, u) = after_steps(a, n, i as nat);
    let filled = fill_upper(a, l, u, i);
    forall|k: int|
        i < k < n ==> (#[trigger] lower_entry(a, l, filled, k, i)) * filled[i][i] == a[k][i] - dot(
            l[k],
            column(filled, i),
            i as nat,
        )
}

/// Whether every division of the decomposition of the square grid `a` is exact.
pub open spec fn exactly_decomposable(a: Seq<Seq<int>>) -> bool {
    forall|i: int| 0 <= i < a.len() ==> #[trigger] divides_exactly(a, a.len(), i)
}

/// Both factors are `n` by `n` after any number of steps.
pub proof fn lemma_steps_shape(a: Seq<Seq<int>>, n: nat, steps: nat)
    ensures
        has_shape(after_steps(a, n, steps).0, n, n),
        has_shape(after_steps(a, n, steps).1, n, n),
    decreases steps,
{
    if steps > 0 {
        lemma_steps_shape(a, n, (steps - 1) as nat);
    }
}

/// After `steps` steps the lower factor is zero above the diagonal and from
/// column `steps` on, and the upper factor is zero below the diagonal and from
/// row `steps` on.
pub proof fn lemma_steps_zero(a: Seq<Seq<int>>, n: nat, steps: nat)
    requires
        steps <= n,
    ensures
        forall|r: int, c: int|
            0 <= r < n && 0 <= c < n && (c >= steps || r < c) ==> #[trigger] after_steps(
                a,
                n,
                steps,
            ).0[r][c] == 0,
        forall|r: int, c: int|
            0 <= r < n && 0 <= c < n && (r >= steps || c < r) ==> #[trigger] after_steps(
                a,
                n,
                steps,
            ).1[r][c] == 0,
    decreases steps,
{
    if steps > 0 {
        lemma_steps_zero(a, n, (steps - 1) as nat);
        lemma_steps_shape(a, n, (steps - 1) as nat);
    }
}

/// A later step leaves the columns of the lower factor and the rows of the
/// upper factor that earlier steps wrote as they are.
pub proof fn lemma_steps_stable(a: Seq<Seq<int>>, n: nat, early: nat, late: nat)
    requires
        early <= late <= n,
    ensures
        forall|r: int, c: int|
            0 <= r < n && 0 <= c < early ==> #[trigger] after_steps(a, n, late).0[r][c]
                == after_steps(a, n, early).0[r][c],
        forall|r: int, c: int|
            0 <= r < early && 0 <= c < n ==> #[trigger] after_steps(a, n, late).1[r][c]
                == after_steps(a, n, early).1[r][c],
    decreases late,
{
    if late > early {
        lemma_steps_stable(a, n, early, (late - 1) as nat);
        lemma_steps_shape(a, n, (late - 1) as nat);
    }
}

/// The lower factor is lower triangular with ones on the diagonal, and the
/// upper factor is upper triangular.
pub proof fn lemma_factors_triangular(a: Seq<Seq<int>>)
    ensures
        has_shape(lower_factor(a), a.len(), a.len()),
        has_shape(upper_factor(a), a.len(), a.len()),
        forall|r: int, c: int|
            0 <= r < c < a.len() ==> #[trigger] lower_factor(a)[r][c] == 0,
        forall|r: int| 0 <= r < a.len() ==> #[trigger] lower_factor(a)[r][r] == 1,
        forall|r: int, c: int|
            0 <= c < r < a.len() ==> #[trigger] upper_factor(a)[r][c] == 0,
{
    let n = a.len();
    lemma_steps_shape(a, n, n);
    lemma_steps_zero(a, n, n);
    assert forall|r: int| 0 <= r < n implies #[trigger] lower_factor(a)[r][r] == 1 by {
        lemma_steps_shape(a, n, r as nat);
        lemma_steps_stable(a, n, (r + 1) as nat, n);
        assert(after_steps(a, n, (r + 1) as nat).0[r][r] == 1);
    }
}

/// On and above the diagonal, a cell of the upper factor is the cell of `a`
/// less the dot product of what stands to the left in the lower factor with
/// what stands above in the upper factor.
pub proof fn lemma_upper_equation(a: Seq<Seq<int>>, r: int, c: int)
    requires
        0 <= r <= c < a.len(),
    ensures
        upper_factor(a)[r][c] == a[r][c] - dot(
            lower_factor(a)[r],
            column(upper_factor(a), c),
            r as nat,
        ),
{
    let n = a.len();
    let (l, u) = after_steps(a, n, r as nat);
    lemma_steps_shape(a, n, r as nat);
    lemma_steps_shape(a, n, n);
    assert(after_steps(a, n, (r + 1) as nat).1[r][c] == upper_entry(a, l, u, r, c));
    lemma_steps_stable(a, n, (r + 1) as nat, n);
    lemma_steps_stable(a, n, r as nat, n);
    lemma_dot_reads_prefix(
        l[r],
        column(u, c),
        lower_factor(a)[r],
        column(upper_factor(a), c),
        r as nat,
    );
}

/// Below the diagonal, where the division of the step was exact, a cell of
/// the lower factor times the pivot is the cell of `a` less the dot product
/// of what stands to the left in the lower factor with what stands above in
/// the upper factor.
pub proof fn lemma_lower_equation(a: Seq<Seq<int>>, r: int, c: int)
    requires
        0 <= c < r < a.len(),
        divides_exactly(a, a.len(), c),
    ensures
        lower_factor(a)[r][c] * upper_factor(a)[c][c] == a[r][c] - dot(
            lower_factor(a)[r],
            column(upper_factor(a), c),
            c as nat,
        ),
{
    let n = a.len();
    let (l, u) = after_steps(a, n, c as nat);
    let filled = fill_upper(a, l, u, c);
    lemma_steps_shape(a, n, c as nat);
    lemma_steps_shape(a, n, (c + 1) as nat);
    lemma_steps_shape(a, n, n);
    assert(after_steps(a, n, (c + 1) as nat).1 == filled);
    assert(after_steps(a, n, (c + 1) as nat).0[r][c] == lower_entry(a, l, filled, r, c));
    lemma_steps_stable(a, n, (c + 1) as nat, n);
    lemma_steps_stable(a, n, c as nat, n);
    lemma_dot_reads_prefix(
        l[r],
        column(filled, c),
        lower_factor(a)[r],
        column(upper_factor(a), c),
        c as nat,
    );
}

/// Round trip: where every division of the decomposition is exact, the
/// product of the lower and the upper factor is the grid that was decomposed.
pub proof fn lemma_factors_multiply_back(a: Seq<Seq<int>>)
    requires
        has_shape(a, a.len(), a.len()),
        exactly_decomposable(a),
    ensures
        product_grid(lower_factor(a), upper_factor(a), a.len()) == a,
{
    let n = a.len();
    let l = lower_factor(a);
    let u = upper_factor(a);
    lemma_factors_triangular(a);
    assert forall|r: int, c: int| 0 <= r < n && 0 <= c < n implies dot(l[r], column(u, c), n)
        == a[r][c] by {
        if r <= c {
            lemma_upper_equation(a, r, c);
            lemma_dot_skips_zero_tail(l[r], column(u, c), (r + 1) as nat, n);
            assert(dot(l[r], column(u, c), (r + 1) as nat) == dot(l[r], column(u, c), r as nat)
                + l[r][r] * column(u, c)[r]);
        } else {
            lemma_lower_equation(a, r, c);
            lemma_dot_skips_zero_tail(l[r], column(u, c), (c + 1) as nat, n);
            assert(dot(l[r], column(u, c), (c + 1) as nat) == dot(l[r], column(u, c), c as nat)
                + l[r][c] * column(u, c)[c]);
        }
    }
    assert(product_grid(l, u, n) =~~= a);
}

/// The diagonal of the lower factor holds ones only, so every product along
/// it is 1.
pub proof fn lemma_lower_diagonal_product(a: Seq<Seq<int>>, k: nat)
    requires
        k <= a.len(),
    ensures
        diagonal_product(lower_factor(a), k) == 1,
    decreases k,
{
    if k > 0 {
        lemma_lower_diagonal_product(a, (k - 1) as nat);
        lemma_factors_triangular(a);
        assert(lower_factor(a)[k - 1][k - 1] == 1);
    }
}

/// The determinant that the decomposition gives is the product of the
/// diagonal of the upper factor.
pub proof fn lemma_determinant_is_upper_diagonal(a: Seq<Seq<int>>)
    ensures
        determinant_of(a) == diagonal_product(upper_factor(a), a.len()),
{
    lemma_lower_diagonal_product(a, a.len());
    if a.len() == 1 {
        lemma_upper_equation(a, 0, 0);
        reveal_with_fuel(diagonal_product, 2);
    }
}

/// For a 3 by 3 grid whose divisions are exact, the determinant that the
/// decomposition gives is the expansion along the first row.
pub proof fn lemma_determinant_three_by_three(a: Seq<Seq<int>>)
    requires
        has_shape(a, 3, 3),
        exactly_decomposable(a),
    ensures
        determinant_of(a) == a[0][0] * (a[1][1] * a[2][2] - a[1][2] * a[2][1]) - a[0][1] * (a[1][0]
            * a[2][2] - a[1][2] * a[2][0]) + a[0][2] * (a[1][0] * a[2][1] - a[1][1] * a[2][0]),
{
    let l = lower_factor(a);
    let u = upper_factor(a);
    lemma_factors_triangular(a);
    lemma_determinant_is_upper_diagonal(a);
    lemma_upper_equation(a, 0, 0);
    lemma_upper_equation(a, 0, 1);
    lemma_upper_equation(a, 0, 2);
    lemma_upper_equation(a, 1, 1);
    lemma_upper_equation(a, 1, 2);
    lemma_upper_equation(a, 2, 2);
    assert(divides_exactly(a, 3, 0));
    assert(divides_exactly(a, 3, 1));
    lemma_lower_equation(a, 1, 0);
    lemma_lower_equation(a, 2, 0);
    lemma_lower_equation(a, 2, 1);
    reveal_with_fuel(dot, 3);
    reveal_with_fuel(diagonal_product, 4);
    assert(column(u, 0)[0] == u[0][0]);
    assert(column(u, 1)[0] == u[0][1]);
    assert(column(u, 2)[0] == u[0][2]);
    assert(column(u, 1)[1] == u[1][1]);
    assert(column(u, 2)[1] == u[1][2]);
    let (a00, a01, a02) = (a[0][0], a[0][1], a[0][2]);
    let (a10, a11, a12) = (a[1][0], a[1][1], a[1][2]);
    let (a20, a21, a22) = (a[2][0], a[2][1], a[2][2]);
    let (p, q, t) = (l[1][0], l[2][0], l[2][1]);
    let (u11, u12, u22) = (u[1][1], u[1][2], u[2][2]);
    assert(u[0][0] == a00 && u[0][1] == a01 && u[0][2] == a02);
    assert(p * a00 == a10);
    assert(q * a00 == a20);
    assert(u11 == a11 - p * a01);
    assert(u12 == a12 - p * a02);
    assert(t * u11 == a21 - q * a01);
    assert(u22 == a22 - (q * a02 + t * u12));
    assert(diagonal_product(u, 3) == a00 * u11 * u22);
    let m = a00 * u11;
    let w = a00 * u12;
    assert(m == a00 * a11 - a10 * a01) by (nonlinear_arith)
        requires
            m == a00 * u11,
            p * a00 == a10,
            u11 == a11 - p * a01,
    ;
    assert(w == a00 * a12 - a10 * a02) by (nonlinear_arith)
        requires
            w == a00 * u12,
            p * a00 == a10,
            u12 == a12 - p * a02,
    ;
    let b = m * (q * a02);
    let c = m * (t * u12);
    assert(m * u22 == m * a22 - b - c) by (nonlinear_arith)
        requires
            u22 == a22 - (q * a02 + t * u12),
            b == m * (q * a02),
            c == m * (t * u12),
    ;
    assert(c == (a21 - q * a01) * w) by (nonlinear_arith)
        requires
            c == m * (t * u12),
            m == a00 * u11,
            w == a00 * u12,
            t * u11 == a21 - q * a01,
    ;
    let z = (q * a10) * (a01 * a02);
    let ma = m * a02;
    assert(ma == a00 * (a11 * a02) - a10 * (a01 * a02)) by (nonlinear_arith)
        requires
            ma == m * a02,
            m == a00 * a11 - a10 * a01,
    ;
    assert(b == q * ma) by (nonlinear_arith)
        requires
            b == m * (q * a02),
            ma == m * a02,
    ;
    assert(q * ma == a20 * (a11 * a02) - z) by (nonlinear_arith)
        requires
            ma == a00 * (a11 * a02) - a10 * (a01 * a02),
            q * a00 == a20,
            z == (q * a10) * (a01 * a02),
    ;
    let qw = q * w;
    assert(qw == a20 * a12 - (q * a10) * a02) by (nonlinear_arith)
        requires
            qw == q * w,
            w == a00 * a12 - a10 * a02,
            q * a00 == a20,
    ;
    assert(c == a21 * w - a01 * qw) by (nonlinear_arith)
        requires
            c == (a21 - q * a01) * w,
            qw == q * w,
    ;
    assert(a01 * qw == a01 * (a20 * a12) - z) by (nonlinear_arith)
        requires
            qw == a20 * a12 - (q * a10) * a02,
            z == (q * a10) * (a01 * a02),
    ;
    assert(a21 * w == a21 * (a00 * a12) - a21 * (a10 * a02)) by (nonlinear_arith)
        requires
            w == a00 * a12 - a10 * a02,
    ;
    assert(m * a22 == a00 * (a11 * a22) - a01 * (a10 * a22)) by (nonlinear_arith)
        requires
            m == a00 * a11 - a10 * a01,
    ;
    assert(a00 * (a11 * a22 - a12 * a21) == a00 * (a11 * a22) - a21 * (a00 * a12))
        by (nonlinear_arith);
    assert(a01 * (a10 * a22 - a12 * a20) == a01 * (a10 * a22) - a01 * (a20 * a12))
        by (nonlinear_arith);
    assert(a02 * (a10 * a21 - a11 * a20) == a21 * (a10 * a02) - a20 * (a11 * a02))
        by (nonlinear_arith);
}

/// For a 2 by 2 grid whose division is exact, the determinant that the
/// decomposition gives is the difference of the two diagonal products.
pub proof fn lemma_determinant_two_by_two(a: Seq<Seq<int>>)
    requires
        has_shape(a, 2, 2),
        exactly_decomposable(a),
    ensures
        determinant_of(a) == a[0][0] * a[1][1] - a[0][1] * a[1][0],
{
    let l = lower_factor(a);
    let u = upper_factor(a);
    lemma_factors_triangular(a);
    lemma_upper_equation(a, 0, 0);
    lemma_upper_equation(a, 0, 1);
    lemma_upper_equation(a, 1, 1);
    assert(divides_exactly(a, 2, 0));
    lemma_lower_equation(a, 1, 0);
    reveal_with_fuel(dot, 2);
    reveal_with_fuel(diagonal_product, 3);
    assert(u[0][0] == a[0][0]);
    assert(u[0][1] == a[0][1]);
    assert(column(u, 1)[0] == u[0][1]);
    assert(u[1][1] == a[1][1] - l[1][0] * a[0][1]);
    assert(l[1][0] * a[0][0] == a[1][0]);
    assert(diagonal_product(l, 2) == 1);
    assert(diagonal_product(u, 2) == u[0][0] * u[1][1]);
    assert(a[0][0] * (a[1][1] - l[1][0] * a[0][1]) == a[0][0] * a[1][1] - a[0][1] * a[1][0])
        by (nonlinear_arith)
        requires
            l[1][0] * a[0][0] == a[1][0],
    ;
}

} // verus!
