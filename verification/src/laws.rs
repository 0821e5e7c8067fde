//! Laws of matrix algebra that hold of every matrix, stated over the views
//! that the contracts of the operations use.

use vstd::prelude::*;
use crate::doolittle::{
    determinant_of, diagonal_product, exactly_decomposable, lemma_determinant_is_upper_diagonal,
    lemma_determinant_three_by_three, lemma_determinant_two_by_two, lemma_factors_multiply_back,
    lemma_factors_triangular, lower_factor, upper_factor,
};
use crate::grid::{has_shape, identity_grid, product_grid, sum_fits, sum_grid, zero_grid};
use crate::matrix_2d::{lemma_view_determines, matrix_sum, Matrix2D};
use crate::matrix_number::MatrixNumber;

verus! {

/// The view of a matrix has the shape of the matrix.
pub proof fn lemma_view_shape<T: MatrixNumber, const ROWS: usize, const COLS: usize>(
    a: Matrix2D<T, ROWS, COLS>,
)
    ensures
        has_shape(a@, ROWS as nat, COLS as nat),
{
}

/// Addition is a function of its operands: two sums of the same two matrices
/// are the same matrix.
pub proof fn lemma_add_deterministic<T: MatrixNumber, const ROWS: usize, const COLS: usize>(
    a: Matrix2D<T, ROWS, COLS>,
    b: Matrix2D<T, ROWS, COLS>,
    first: Matrix2D<T, ROWS, COLS>,
    second: Matrix2D<T, ROWS, COLS>,
)
    requires
        first@ == sum_grid(a@, b@),
        second@ == sum_grid(a@, b@),
    ensures
        first == second,
{
    lemma_view_determines(first, second);
}

/// Addition is commutative: `a + b` and `b + a` are defined on the same
/// operands, have the same cells, and are the same matrix.
pub proof fn lemma_add_commutative<T: MatrixNumber, const ROWS: usize, const COLS: usize>(
    a: Matrix2D<T, ROWS, COLS>,
    b: Matrix2D<T, ROWS, COLS>,
)
    ensures
        sum_fits::<T>(a@, b@) == sum_fits::<T>(b@, a@),
        sum_grid(a@, b@) == sum_grid(b@, a@),
        matrix_sum(a, b) == matrix_sum(b, a),
{
    assert(sum_grid(a@, b@) =~~= sum_grid(b@, a@));
    if sum_fits::<T>(a@, b@) {
        assert forall|i: int, j: int| 0 <= i < b@.len() && 0 <= j < b@[i].len() implies T::representable(
            #[trigger] b@[i][j] + a@[i][j],
        ) by {
            assert(T::representable(a@[i][j] + b@[i][j]));
        }
    }
    if sum_fits::<T>(b@, a@) {
        assert forall|i: int, j: int| 0 <= i < a@.len() && 0 <= j < a@[i].len() implies T::representable(
            #[trigger] a@[i][j] + b@[i][j],
        ) by {
            assert(T::representable(b@[i][j] + a@[i][j]));
        }
    }
}

/// Addition is associative: `a + (b + c)` and `(a + b) + c` have the same
/// cells.
pub proof fn lemma_add_associative<T: MatrixNumber, const ROWS: usize, const COLS: usize>(
    a: Matrix2D<T, ROWS, COLS>,
    b: Matrix2D<T, ROWS, COLS>,
    c: Matrix2D<T, ROWS, COLS>,
)
    ensures
        sum_grid(a@, sum_grid(b@, c@)) == sum_grid(sum_grid(a@, b@), c@),
{
    assert(sum_grid(a@, sum_grid(b@, c@)) =~~= sum_grid(sum_grid(a@, b@), c@));
}

/// The zero matrix is the identity of addition: `a + zero()` is defined for
/// every `a`, has the cells of `a`, and is `a`.
pub proof fn lemma_add_zero<T: MatrixNumber, const ROWS: usize, const COLS: usize>(
    a: Matrix2D<T, ROWS, COLS>,
)
    ensures
        sum_fits::<T>(a@, zero_grid(ROWS as nat, COLS as nat)),
        sum_grid(a@, zero_grid(ROWS as nat, COLS as nat)) == a@,
        forall|z: Matrix2D<T, ROWS, COLS>|
            z@ == zero_grid(ROWS as nat, COLS as nat) ==> #[trigger] matrix_sum(a, z) == a,
{
    let zero = zero_grid(ROWS as nat, COLS as nat);
    assert(sum_grid(a@, zero) =~~= a@);
    assert forall|z: Matrix2D<T, ROWS, COLS>| z@ == zero implies #[trigger] matrix_sum(a, z)
        == a by {
        lemma_view_determines(matrix_sum(a, z), a);
    }
    assert forall|i: int, j: int| 0 <= i < a@.len() && 0 <= j < a@[i].len() implies T::representable(
        #[trigger] a@[i][j] + zero[i][j],
    ) by {
        a.contents[i][j].value_is_representable();
    }
}

/// Adding the identity matrix changes a matrix that has at least one cell.
pub proof fn lemma_add_identity_changes<T: MatrixNumber, const SIZE: usize>(
    a: Matrix2D<T, SIZE, SIZE>,
)
    requires
        SIZE >= 1,
    ensures
        sum_grid(a@, identity_grid(SIZE as nat)) != a@,
{
    let sum = sum_grid(a@, identity_grid(SIZE as nat));
    assert(sum[0][0] == a@[0][0] + 1);
}

/// Round trip of the decomposition: where every division is exact, the lower
/// factor is lower triangular with ones on its diagonal, the upper factor is
/// upper triangular, and their product is the matrix that was decomposed.
pub proof fn lemma_lu_round_trip<T: MatrixNumber, const SIZE: usize>(a: Matrix2D<T, SIZE, SIZE>)
    requires
        exactly_decomposable(a@),
    ensures
        product_grid(lower_factor(a@), upper_factor(a@), SIZE as nat) == a@,
        forall|r: int, c: int| 0 <= r < c < SIZE ==> #[trigger] lower_factor(a@)[r][c] == 0,
        forall|r: int| 0 <= r < SIZE ==> #[trigger] lower_factor(a@)[r][r] == 1,
        forall|r: int, c: int| 0 <= c < r < SIZE ==> #[trigger] upper_factor(a@)[r][c] == 0,
{
    lemma_view_shape(a);
    lemma_factors_triangular(a@);
    lemma_factors_multiply_back(a@);
}

/// The determinant of a 2 by 2 matrix whose division is exact is the
/// difference of the products of its two diagonals.
pub proof fn lemma_determinant_two_by_two_expands<T: MatrixNumber>(a: Matrix2D<T, 2, 2>)
    requires
        exactly_decomposable(a@),
    ensures
        determinant_of(a@) == a@[0][0] * a@[1][1] - a@[0][1] * a@[1][0],
{
    lemma_view_shape(a);
    lemma_determinant_two_by_two(a@);
}

/// The determinant of a 3 by 3 matrix whose divisions are exact is its
/// expansion along the first row.
pub proof fn lemma_determinant_three_by_three_expands<T: MatrixNumber>(a: Matrix2D<T, 3, 3>)
    requires
        exactly_decomposable(a@),
    ensures
        determinant_of(a@) == a@[0][0] * (a@[1][1] * a@[2][2] - a@[1][2] * a@[2][1]) - a@[0][1] * (
        a@[1][0] * a@[2][2] - a@[1][2] * a@[2][0]) + a@[0][2] * (a@[1][0] * a@[2][1] - a@[1][1]
            * a@[2][0]),
{
    lemma_view_shape(a);
    lemma_determinant_three_by_three(a@);
}

/// The lower factor contributes 1 to the determinant: the determinant is the
/// product of the diagonal of the upper factor.
pub proof fn lemma_determinant_is_upper_diagonal_product<T: MatrixNumber, const SIZE: usize>(
    a: Matrix2D<T, SIZE, SIZE>,
)
    ensures
        determinant_of(a@) == diagonal_product(upper_factor(a@), SIZE as nat),
{
    lemma_determinant_is_upper_diagonal(a@);
}

/// The determinant of a matrix of one cell is that cell.
pub proof fn lemma_determinant_of_one_cell<T: MatrixNumber>(a: Matrix2D<T, 1, 1>)
    ensures
        determinant_of(a@) == a.contents[0][0].value(),
{
}

} // verus!
