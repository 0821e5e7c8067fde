//! The matrix type and its operations.

use vstd::prelude::*;
use crate::grid::{
    column, dot, dot_fits, dot_step_fits, grid_view, has_shape, identity_grid, product_grid,
    product_grid_fits, product_vector, product_vector_fits, sum_fits, sum_grid, vector_view,
    with_column, zero_grid,
};
use crate::doolittle::{
    after_steps, decomposable, determinant_fits, determinant_of, diagonal_fits, diagonal_product,
    exactly_decomposable, fill_lower, fill_upper, lemma_factors_multiply_back,
    lemma_factors_triangular, lower_entry, lower_entry_fits, lower_factor, step_fits, upper_entry,
    upper_entry_fits, upper_factor,
};
use crate::matrix_number::MatrixNumber;

verus! {

/// A matrix of `ROWS` rows and `COLS` columns, stored row by row.
#[derive(PartialEq, Debug, Clone, Copy)]
pub struct Matrix2D<T: MatrixNumber, const ROWS: usize, const COLS: usize> {
    pub contents: [[T; COLS]; ROWS],
}

impl<T: MatrixNumber, const ROWS: usize, const COLS: usize> View for Matrix2D<T, ROWS, COLS> {
    type V = Seq<Seq<int>>;

    /// The grid of integers that the cells stand for.
    open spec fn view(&self) -> Seq<Seq<int>> {
        grid_view(self.contents)
    }
}

/// The matrix whose cells stand for the cell-wise sums of `a` and `b`.
pub open spec fn matrix_sum<T: MatrixNumber, const ROWS: usize, const COLS: usize>(
    a: Matrix2D<T, ROWS, COLS>,
    b: Matrix2D<T, ROWS, COLS>,
) -> Matrix2D<T, ROWS, COLS> {
    choose|sum: Matrix2D<T, ROWS, COLS>| sum@ == sum_grid(a@, b@)
}

/// The vector whose cells stand for the dot products of the rows of `a` with `v`.
pub open spec fn matrix_vector_product<T: MatrixNumber, const ROWS: usize, const COLS: usize>(
    a: Matrix2D<T, ROWS, COLS>,
    v: [T; COLS],
) -> [T; ROWS] {
    choose|product: [T; ROWS]| vector_view(product) == product_vector(a@, vector_view(v))
}

/// The matrix whose cells stand for the dot products of the rows of `a` with
/// the columns of `b`.
pub open spec fn matrix_product<
    T: MatrixNumber,
    const LHS_ROWS: usize,
    const SHARED_DIMENSION: usize,
    const RHS_COLS: usize,
>(
    a: Matrix2D<T, LHS_ROWS, SHARED_DIMENSION>,
    b: Matrix2D<T, SHARED_DIMENSION, RHS_COLS>,
) -> Matrix2D<T, LHS_ROWS, RHS_COLS> {
    choose|product: Matrix2D<T, LHS_ROWS, RHS_COLS>|
        product@ == product_grid(a@, b@, RHS_COLS as nat)
}

/// Two vectors with the same view are the same vector.
pub proof fn lemma_vector_view_determines<T: MatrixNumber, const N: usize>(a: [T; N], b: [T; N])
    requires
        vector_view(a) == vector_view(b),
    ensures
        a == b,
{
    assert forall|j: int| 0 <= j < N implies a[j] == b[j] by {
        assert(vector_view(a)[j] == a[j].value());
        assert(vector_view(b)[j] == b[j].value());
        T::value_determines(a[j], b[j]);
    }
    assert(a =~= b);
}

/// Two matrices with the same view are the same matrix: equality of matrices
/// is equality cell by cell.
pub proof fn lemma_view_determines<T: MatrixNumber, const ROWS: usize, const COLS: usize>(
    a: Matrix2D<T, ROWS, COLS>,
    b: Matrix2D<T, ROWS, COLS>,
)
    requires
        a@ == b@,
    ensures
        a == b,
{
    assert forall|i: int| 0 <= i < ROWS implies a.contents[i] == b.contents[i] by {
        assert forall|j: int| 0 <= j < COLS implies a.contents[i][j] == b.contents[i][j] by {
            assert(a@[i][j] == a.contents[i][j].value());
            assert(b@[i][j] == b.contents[i][j].value());
            T::value_determines(a.contents[i][j], b.contents[i][j]);
        }
        assert(a.contents[i] =~= b.contents[i]);
    }
    assert(a.contents =~= b.contents);
}

impl<T: MatrixNumber, const ROWS: usize, const COLS: usize> std::ops::Add<Matrix2D<T, ROWS, COLS>> for Matrix2D<T, ROWS, COLS> {
    type Output = Matrix2D<T, ROWS, COLS>;

    /// Cell-wise sum. Every cell of the sum must be representable in `T`,
    /// as `add_req` says.
    fn add(self, rhs: Matrix2D<T, ROWS, COLS>) -> (r: Matrix2D<T, ROWS, COLS>)
        ensures
            r@ == sum_grid(self@, rhs@),
    {
        let mut output_contents = [[T::zero(); COLS]; ROWS];

        for row_index in 0..ROWS
            invariant
                sum_fits::<T>(self@, rhs@),
                forall|i: int, j: int|
                    0 <= i < row_index && 0 <= j < COLS ==> (#[trigger] output_contents[i][j]).value()
                        == self@[i][j] + rhs@[i][j],
        {
            let mut current_row = [T::zero(); COLS];
            for column_index in 0..COLS
                invariant
                    row_index < ROWS,
                    sum_fits::<T>(self@, rhs@),
                    forall|j: int|
                        0 <= j < column_index ==> (#[trigger] current_row[j]).value()
                            == self@[row_index as int][j] + rhs@[row_index as int][j],
            {
                assert(self@[row_index as int][column_index as int]
                    == self.contents[row_index as int][column_index as int].value());
                current_row[column_index] = self.contents[row_index][column_index].plus(
                    rhs.contents[row_index][column_index],
                );
            }

            output_contents[row_index] = current_row;
        }

        let output = Matrix2D { contents: output_contents };
        proof {
            assert(output@ =~~= sum_grid(self@, rhs@));
            lemma_view_determines(output, matrix_sum(self, rhs));
        }
        output
    }
}

impl<T: MatrixNumber, const ROWS: usize, const COLS: usize> vstd::std_specs::ops::AddSpecImpl<Matrix2D<T, ROWS, COLS>> for Matrix2D<T, ROWS, COLS> {
    open spec fn obeys_add_spec() -> bool {
        true
    }

    open spec fn add_req(self, rhs: Matrix2D<T, ROWS, COLS>) -> bool {
        sum_fits::<T>(self@, rhs@)
    }

    open spec fn add_spec(self, rhs: Matrix2D<T, ROWS, COLS>) -> Matrix2D<T, ROWS, COLS> {
        matrix_sum(self, rhs)
    }
}

impl<T: MatrixNumber, const ROWS: usize, const COLS: usize> std::ops::Mul<[T; COLS]> for Matrix2D<T, ROWS, COLS> {
    type Output = [T; ROWS];

    /// Product with a vector: cell `i` of the result is the dot product of
    /// row `i` with `rhs`, accumulated from left to right. Every step must be
    /// representable in `T`, as `mul_req` says.
    fn mul(self, rhs: [T; COLS]) -> (r: [T; ROWS])
        ensures
            vector_view(r) == product_vector(self@, vector_view(rhs)),
    {
        let mut output_value = [T::zero(); ROWS];

        for row_index in 0..ROWS
            invariant
                product_vector_fits::<T>(self@, vector_view(rhs)),
                forall|i: int|
                    0 <= i < row_index ==> (#[trigger] output_value[i]).value() == dot(
                        self@[i],
                        vector_view(rhs),
                        COLS as nat,
                    ),
        {
            let mut row_value = T::zero();
            let current_row = self.contents[row_index];

            for column_index in 0..COLS
                invariant
                    row_index < ROWS,
                    current_row == self.contents[row_index as int],
                    dot_fits::<T>(self@[row_index as int], vector_view(rhs), COLS as nat),
                    row_value.value() == dot(
                        self@[row_index as int],
                        vector_view(rhs),
                        column_index as nat,
                    ),
            {
                assert(dot_step_fits::<T>(
                    self@[row_index as int],
                    vector_view(rhs),
                    column_index as int,
                ));
                let scaled_value = current_row[column_index].times(rhs[column_index]);
                row_value = row_value.plus(scaled_value);
            }

            output_value[row_index] = row_value;
        }

        proof {
            assert(vector_view(output_value) =~= product_vector(self@, vector_view(rhs)));
            lemma_vector_view_determines(output_value, matrix_vector_product(self, rhs));
        }
        output_value
    }
}

impl<T: MatrixNumber, const ROWS: usize, const COLS: usize> vstd::std_specs::ops::MulSpecImpl<[T; COLS]> for Matrix2D<T, ROWS, COLS> {
    open spec fn obeys_mul_spec() -> bool {
        true
    }

    open spec fn mul_req(self, rhs: [T; COLS]) -> bool {
        product_vector_fits::<T>(self@, vector_view(rhs))
    }

    open spec fn mul_spec(self, rhs: [T; COLS]) -> [T; ROWS] {
        matrix_vector_product(self, rhs)
    }
}

impl<
    T: MatrixNumber,
    const LHS_ROWS: usize,
    const SHARED_DIMENSION: usize,
    const RHS_COLS: usize,
> std::ops::Mul<Matrix2D<T, SHARED_DIMENSION, RHS_COLS>> for Matrix2D<
    T,
    LHS_ROWS,
    SHARED_DIMENSION,
> {
    type Output = Matrix2D<T, LHS_ROWS, RHS_COLS>;

    /// Product of two matrices, computed column by column: column `k` of the
    /// result is `self` times column `k` of `rhs`. Every step must be
    /// representable in `T`, as `mul_req` says.
    fn mul(self, rhs: Matrix2D<T, SHARED_DIMENSION, RHS_COLS>) -> (r: Matrix2D<
        T,
        LHS_ROWS,
        RHS_COLS,
    >)
        ensures
            r@ == product_grid(self@, rhs@, RHS_COLS as nat),
    {
        let mut output: Matrix2D<T, LHS_ROWS, RHS_COLS> = Matrix2D::zero();

        for column_index in 0..RHS_COLS
            invariant
                product_grid_fits::<T>(self@, rhs@, RHS_COLS as nat),
                forall|i: int, k: int|
                    0 <= i < LHS_ROWS && 0 <= k < column_index ==> #[trigger] output@[i][k] == dot(
                        self@[i],
                        column(rhs@, k),
                        SHARED_DIMENSION as nat,
                    ),
        {
            let rhs_column = rhs.get_column(column_index);
            assert(product_vector_fits::<T>(self@, column(rhs@, column_index as int)));
            let multiplied_column = self * rhs_column;
            output = output.set_column(multiplied_column, column_index);
        }

        proof {
            assert(output@ =~~= product_grid(self@, rhs@, RHS_COLS as nat));
            lemma_view_determines(output, matrix_product(self, rhs));
        }
        output
    }
}

impl<
    T: MatrixNumber,
    const LHS_ROWS: usize,
    const SHARED_DIMENSION: usize,
    const RHS_COLS: usize,
> vstd::std_specs::ops::MulSpecImpl<Matrix2D<T, SHARED_DIMENSION, RHS_COLS>> for Matrix2D<
    T,
    LHS_ROWS,
    SHARED_DIMENSION,
> {
    open spec fn obeys_mul_spec() -> bool {
        true
    }

    open spec fn mul_req(self, rhs: Matrix2D<T, SHARED_DIMENSION, RHS_COLS>) -> bool {
        product_grid_fits::<T>(self@, rhs@, RHS_COLS as nat)
    }

    open spec fn mul_spec(self, rhs: Matrix2D<T, SHARED_DIMENSION, RHS_COLS>) -> Matrix2D<
        T,
        LHS_ROWS,
        RHS_COLS,
    > {
        matrix_product(self, rhs)
    }
}

impl<T: MatrixNumber, const ROWS: usize, const COLS: usize> Matrix2D<T, ROWS, COLS> {
    /// The matrix whose every cell is zero.
    pub fn zero() -> (r: Self)
        ensures
            r@ == zero_grid(ROWS as nat, COLS as nat),
    {
        let output = Matrix2D { contents: [[T::zero(); COLS]; ROWS] };
        assert(output@ =~~= zero_grid(ROWS as nat, COLS as nat));
        output
    }

    /// Column `column_index`, from the top row down.
    pub fn get_column(&self, column_index: usize) -> (r: [T; ROWS])
        requires
            column_index < COLS,
        ensures
            vector_view(r) == column(self@, column_index as int),
    {
        let mut output = [T::zero(); ROWS];

        for row_index in 0..ROWS
            invariant
                column_index < COLS,
                forall|i: int|
                    0 <= i < row_index ==> #[trigger] output[i]
                        == self.contents[i][column_index as int],
        {
            output[row_index] = self.contents[row_index][column_index];
        }

        assert(vector_view(output) =~= column(self@, column_index as int));
        output
    }

    /// A copy of the matrix with column `column_index` replaced by `new_value`.
    pub fn set_column(&self, new_value: [T; ROWS], column_index: usize) -> (r: Self)
        requires
            column_index < COLS,
        ensures
            r@ == with_column(self@, vector_view(new_value), column_index as int),
    {
        let mut current_contents = self.contents;

        for row_index in 0..ROWS
            invariant
                column_index < COLS,
                forall|i: int|
                    0 <= i < row_index ==> (#[trigger] current_contents[i])@
                        == self.contents[i]@.update(column_index as int, new_value[i]),
                forall|i: int|
                    row_index <= i < ROWS ==> #[trigger] current_contents[i] == self.contents[i],
        {
            let mut current_row = current_contents[row_index];
            current_row[column_index] = new_value[row_index];
            current_contents[row_index] = current_row;
        }

        let output = Matrix2D { contents: current_contents };
        assert(output@ =~~= with_column(self@, vector_view(new_value), column_index as int));
        output
    }
}

impl<T: MatrixNumber, const SIZE: usize> Matrix2D<T, SIZE, SIZE> {
    /// The square matrix with one on the main diagonal and zero elsewhere.
    pub fn identity() -> (r: Matrix2D<T, SIZE, SIZE>)
        ensures
            r@ == identity_grid(SIZE as nat),
    {
        let zero = T::zero();
        let mut output_contents = [[zero; SIZE]; SIZE];
        for pivot_index in 0..SIZE
            invariant
                zero.value() == 0,
                forall|i: int, j: int|
                    0 <= i < SIZE && 0 <= j < SIZE ==> (#[trigger] output_contents[i][j]).value()
                        == (if i == j && i < pivot_index {
                        1int
                    } else {
                        0int
                    }),
        {
            let mut pivot_row = output_contents[pivot_index];
            pivot_row[pivot_index] = T::one();
            output_contents[pivot_index] = pivot_row;
        }

        let output = Matrix2D { contents: output_contents };
        assert(output@ =~~= identity_grid(SIZE as nat));
        output
    }

    /// The determinant, from the LU decomposition: the product of the lower
    /// factor's diagonal times the product of the upper factor's diagonal. A
    /// 1 by 1 matrix gives its sole cell, with no decomposition.
    ///
    /// There is no pivoting: a matrix with a zero leading principal minor is
    /// not decomposable, though it may well have a determinant. With integer
    /// scalars the quotients of the decomposition are rounded, and the result
    /// is the mathematical determinant only where every division is exact.
    pub fn determinant(&self) -> (r: T)
        requires
            SIZE != 1 ==> decomposable::<T>(self@) && determinant_fits::<T>(self@),
        ensures
            r.value() == determinant_of(self@),
    {
        if SIZE == 1 {
            return self.contents[0][0];
        }
        let (l, u) = self.lu_decomposition();

        let mut l_determinant = T::one();
        for i in 0..SIZE
            invariant
                diagonal_fits::<T>(l@, SIZE as nat),
                l_determinant.value() == diagonal_product(l@, i as nat),
        {
            assert(T::representable(diagonal_product(l@, (i + 1) as nat)));
            l_determinant.mul_assign(l.contents[i][i]);
        }

        let mut u_determinant = T::one();
        for i in 0..SIZE
            invariant
                diagonal_fits::<T>(u@, SIZE as nat),
                u_determinant.value() == diagonal_product(u@, i as nat),
        {
            assert(T::representable(diagonal_product(u@, (i + 1) as nat)));
            u_determinant.mul_assign(u.contents[i][i]);
        }

        l_determinant.times(u_determinant)
    }

    /// LU decomposition by Doolittle's method: the pair of the lower factor,
    /// with ones on its diagonal, and the upper factor.
    ///
    /// There is no pivoting. The matrix must be decomposable within `T`: each
    /// pivot that is divided by is not zero, and no intermediate sum, product,
    /// difference or quotient leaves the type. Quotients are rounded toward
    /// zero, so the product of the factors is the matrix itself only where
    /// every division is exact.
    pub fn lu_decomposition(&self) -> (r: (Matrix2D<T, SIZE, SIZE>, Matrix2D<T, SIZE, SIZE>))
        requires
            decomposable::<T>(self@),
        ensures
            r.0@ == lower_factor(self@),
            r.1@ == upper_factor(self@),
            forall|row: int, col: int| 0 <= row < col < SIZE ==> #[trigger] r.0@[row][col] == 0,
            forall|row: int| 0 <= row < SIZE ==> #[trigger] r.0@[row][row] == 1,
            forall|row: int, col: int| 0 <= col < row < SIZE ==> #[trigger] r.1@[row][col] == 0,
            exactly_decomposable(self@) ==> product_grid(r.0@, r.1@, SIZE as nat) == self@,
    {
        let mut lower_triangle = [[T::zero(); SIZE]; SIZE];
        let mut upper_triangle = [[T::zero(); SIZE]; SIZE];
        assert(grid_view(lower_triangle) =~~= zero_grid(SIZE as nat, SIZE as nat));
        assert(grid_view(upper_triangle) =~~= zero_grid(SIZE as nat, SIZE as nat));

        for i in 0..SIZE
            invariant
                decomposable::<T>(self@),
                grid_view(lower_triangle) == after_steps(self@, SIZE as nat, i as nat).0,
                grid_view(upper_triangle) == after_steps(self@, SIZE as nat, i as nat).1,
        {
            let ghost l0 = grid_view(lower_triangle);
            let ghost u0 = grid_view(upper_triangle);
            assert(self@.len() == SIZE);
            assert(step_fits::<T>(self@, SIZE as nat, i as int));
            assert(has_shape(l0, SIZE as nat, SIZE as nat));

            let lower_row = lower_triangle[i];
            let mut upper_row = upper_triangle[i];
            for k in i..SIZE
                invariant
                    i < SIZE,
                    step_fits::<T>(self@, SIZE as nat, i as int),
                    l0 == after_steps(self@, SIZE as nat, i as nat).0,
                    u0 == after_steps(self@, SIZE as nat, i as nat).1,
                    l0 == grid_view(lower_triangle),
                    u0 == grid_view(upper_triangle),
                    lower_row == lower_triangle[i as int],
                    forall|c: int|
                        0 <= c < SIZE ==> (#[trigger] upper_row[c]).value() == (if i <= c < k {
                            upper_entry(self@, l0, u0, i as int, c)
                        } else {
                            u0[i as int][c]
                        }),
            {
                assert(upper_entry_fits::<T>(self@, l0, u0, i as int, k as int));
                let mut sum = T::zero();
                for j in 0..i
                    invariant
                        i < SIZE,
                        k < SIZE,
                        l0 == grid_view(lower_triangle),
                        u0 == grid_view(upper_triangle),
                        lower_row == lower_triangle[i as int],
                        dot_fits::<T>(l0[i as int], column(u0, k as int), i as nat),
                        sum.value() == dot(l0[i as int], column(u0, k as int), j as nat),
                {
                    assert(dot_step_fits::<T>(l0[i as int], column(u0, k as int), j as int));
                    assert(l0[i as int][j as int] == lower_row[j as int].value());
                    assert(column(u0, k as int)[j as int] == upper_triangle[j as int][k as int].value());
                    sum.add_assign(lower_row[j].times(upper_triangle[j][k]));
                }
                assert(self@[i as int][k as int] == self.contents[i as int][k as int].value());
                upper_row[k] = self.contents[i][k].minus(sum);
            }
            upper_triangle[i] = upper_row;
            let ghost u1 = grid_view(upper_triangle);
            assert(u1 =~~= fill_upper(self@, l0, u0, i as int));

            for k in i..SIZE
                invariant
                    i < SIZE,
                    step_fits::<T>(self@, SIZE as nat, i as int),
                    l0 == after_steps(self@, SIZE as nat, i as nat).0,
                    u0 == after_steps(self@, SIZE as nat, i as nat).1,
                    u1 == fill_upper(self@, l0, u0, i as int),
                    u1 == grid_view(upper_triangle),
                    has_shape(l0, SIZE as nat, SIZE as nat),
                    forall|r: int, c: int|
                        0 <= r < SIZE && 0 <= c < SIZE ==> (#[trigger] lower_triangle[r][c]).value()
                            == (if c == i && i <= r < k {
                            fill_lower(self@, l0, u1, i as int)[r][c]
                        } else {
                            l0[r][c]
                        }),
            {
                let mut lower_row = lower_triangle[k];
                if i == k {
                    lower_row[i] = T::one();
                } else {
                    assert(lower_entry_fits::<T>(self@, l0, u1, k as int, i as int));
                    let mut sum = T::zero();
                    for j in 0..i
                        invariant
                            i < k < SIZE,
                            u1 == grid_view(upper_triangle),
                            lower_row == lower_triangle[k as int],
                            forall|c: int|
                                0 <= c < i ==> (#[trigger] lower_row[c]).value() == l0[k as int][c],
                            dot_fits::<T>(l0[k as int], column(u1, i as int), i as nat),
                            sum.value() == dot(l0[k as int], column(u1, i as int), j as nat),
                    {
                        assert(dot_step_fits::<T>(l0[k as int], column(u1, i as int), j as int));
                        assert(column(u1, i as int)[j as int] == upper_triangle[j as int][i as int].value());
                        sum.add_assign(lower_row[j].times(upper_triangle[j][i]));
                    }
                    assert(self@[k as int][i as int] == self.contents[k as int][i as int].value());
                    assert(u1[i as int][i as int] == upper_triangle[i as int][i as int].value());
                    lower_row[i] = self.contents[k][i].minus(sum).divided_by(upper_triangle[i][i]);
                }
                lower_triangle[k] = lower_row;
            }
            assert(grid_view(lower_triangle) =~~= fill_lower(self@, l0, u1, i as int));
        }

        proof {
            lemma_factors_triangular(self@);
            if exactly_decomposable(self@) {
                lemma_factors_multiply_back(self@);
            }
        }
        (Matrix2D { contents: lower_triangle }, Matrix2D { contents: upper_triangle })
    }
}

} // verus!
