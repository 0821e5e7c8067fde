use matrix_algebra::matrix_2d::Matrix2D;
use matrix_algebra::matrix_number::MatrixNumber;

#[test]
fn matrix_2d_addition() {
    let matrix_a = Matrix2D {
        contents: [[1, 2, 3], [4, 5, 6]],
    };

    let matrix_b = Matrix2D {
        contents: [[3, 6, 4], [1, 7, 2]],
    };

    let matrix_c = Matrix2D {
        contents: [[-3, 30, 42], [4, -15, 21]],
    };

    assert_eq!(matrix_a + matrix_b, matrix_a + matrix_b);
    assert_eq!(matrix_a + matrix_c, matrix_a + matrix_c);
    assert_eq!(matrix_b + matrix_c, matrix_b + matrix_c);

    assert_eq!(matrix_a + matrix_b, matrix_b + matrix_a);
    assert_eq!(matrix_a + matrix_c, matrix_c + matrix_a);
    assert_eq!(matrix_b + matrix_c, matrix_c + matrix_b);

    assert_eq!(matrix_a + Matrix2D::zero(), matrix_a);
    assert_eq!(matrix_b + Matrix2D::zero(), matrix_b);
    assert_eq!(matrix_c + Matrix2D::zero(), matrix_c);

    assert_eq!(
        matrix_a + (matrix_b + matrix_c),
        (matrix_a + matrix_b) + matrix_c
    );

    let square_matrix = Matrix2D {
        contents: [[1, 2], [3, 4]],
    };

    assert_ne!(square_matrix + Matrix2D::identity(), square_matrix);
}

#[test]
fn matrix_2d_multiplication() {
    let matrix_a = Matrix2D {
        contents: [[1, 2, 3], [4, 5, 6]],
    };

    let matrix_b = Matrix2D {
        contents: [[3, 6], [4, 5], [9, -1]],
    };

    assert_eq!(matrix_a * [3, 4, 5], [26, 62]);

    assert_eq!(
        Matrix2D {
            contents: [[-3, 42, -4, 50], [11, 34, 23, 14]]
        } * [-2, 15, -13, 4],
        [888, 245]
    );

    assert_eq!(
        matrix_a * matrix_b,
        Matrix2D {
            contents: [[38, 13], [86, 43]],
        }
    );
}

#[test]
fn addition_gives_exact_cells() {
    let a = Matrix2D { contents: [[1i64, -2], [30, 4], [5, 6]] };
    let b = Matrix2D { contents: [[10i64, 20], [-30, 40], [50, -60]] };
    assert_eq!(a + b, Matrix2D { contents: [[11, 18], [0, 44], [55, -54]] });
}

#[test]
fn addition_reaches_the_limits_of_the_type() {
    let a = Matrix2D { contents: [[250u8, 0]] };
    let b = Matrix2D { contents: [[5u8, 255]] };
    assert_eq!(a + b, Matrix2D { contents: [[255, 255]] });
    let c = Matrix2D { contents: [[i8::MIN, i8::MAX]] };
    assert_eq!(c + Matrix2D::zero(), c);
}

#[test]
fn zero_matrix_holds_zero_everywhere() {
    let z: Matrix2D<i32, 2, 3> = Matrix2D::zero();
    assert_eq!(z, Matrix2D { contents: [[0, 0, 0], [0, 0, 0]] });
    let e: Matrix2D<u16, 0, 4> = Matrix2D::zero();
    assert_eq!(e.contents.len(), 0);
}

#[test]
fn identity_matrix_has_ones_on_the_diagonal() {
    let i3: Matrix2D<i32, 3, 3> = Matrix2D::identity();
    assert_eq!(i3, Matrix2D { contents: [[1, 0, 0], [0, 1, 0], [0, 0, 1]] });
    let i1: Matrix2D<u64, 1, 1> = Matrix2D::identity();
    assert_eq!(i1, Matrix2D { contents: [[1]] });
    let i0: Matrix2D<u64, 0, 0> = Matrix2D::identity();
    assert_eq!(i0, Matrix2D::zero());
}

#[test]
fn adding_identity_changes_the_diagonal_only() {
    let a = Matrix2D { contents: [[1, 2], [3, 4]] };
    assert_eq!(a + Matrix2D::identity(), Matrix2D { contents: [[2, 2], [3, 5]] });
}

#[test]
fn identity_is_neutral_for_products() {
    let a = Matrix2D { contents: [[7, -8, 9], [1, 2, 3], [-4, 5, 6]] };
    let id: Matrix2D<i32, 3, 3> = Matrix2D::identity();
    assert_eq!(a * id, a);
    assert_eq!(id * a, a);
    assert_eq!(id * [4, 5, 6], [4, 5, 6]);
}

#[test]
fn product_with_empty_shared_dimension_is_zero() {
    let a: Matrix2D<i32, 2, 0> = Matrix2D { contents: [[], []] };
    let b: Matrix2D<i32, 0, 3> = Matrix2D { contents: [] };
    assert_eq!(a * b, Matrix2D { contents: [[0, 0, 0], [0, 0, 0]] });
    assert_eq!(a * [], [0, 0]);
}

#[test]
fn product_is_not_commutative() {
    let a = Matrix2D { contents: [[1, 2], [3, 4]] };
    let b = Matrix2D { contents: [[0, 1], [1, 0]] };
    assert_eq!(a * b, Matrix2D { contents: [[2, 1], [4, 3]] });
    assert_eq!(b * a, Matrix2D { contents: [[3, 4], [1, 2]] });
}

#[test]
fn get_column_reads_top_down() {
    let a = Matrix2D { contents: [[1, 2, 3], [4, 5, 6]] };
    assert_eq!(a.get_column(0), [1, 4]);
    assert_eq!(a.get_column(2), [3, 6]);
}

#[test]
fn set_column_replaces_one_column() {
    let a = Matrix2D { contents: [[1, 2, 3], [4, 5, 6]] };
    let b = a.set_column([7, 8], 1);
    assert_eq!(b, Matrix2D { contents: [[1, 7, 3], [4, 8, 6]] });
    assert_eq!(a, Matrix2D { contents: [[1, 2, 3], [4, 5, 6]] });
}

#[test]
fn lu_decomposition_two_by_two() {
    let a = Matrix2D { contents: [[2, 1], [4, 5]] };
    let (l, u) = a.lu_decomposition();
    assert_eq!(l, Matrix2D { contents: [[1, 0], [2, 1]] });
    assert_eq!(u, Matrix2D { contents: [[2, 1], [0, 3]] });
    assert_eq!(l * u, a);
}

#[test]
fn lu_decomposition_three_by_three() {
    let a = Matrix2D { contents: [[2i64, 1, 1], [4, 3, 3], [8, 7, 9]] };
    let (l, u) = a.lu_decomposition();
    assert_eq!(l, Matrix2D { contents: [[1, 0, 0], [2, 1, 0], [4, 3, 1]] });
    assert_eq!(u, Matrix2D { contents: [[2, 1, 1], [0, 1, 1], [0, 0, 2]] });
    assert_eq!(l * u, a);
}

#[test]
fn lu_decomposition_with_negative_cells() {
    let a = Matrix2D { contents: [[-1, 2], [3, -4]] };
    let (l, u) = a.lu_decomposition();
    assert_eq!(l, Matrix2D { contents: [[1, 0], [-3, 1]] });
    assert_eq!(u, Matrix2D { contents: [[-1, 2], [0, 2]] });
    assert_eq!(l * u, a);
}

#[test]
fn lu_decomposition_rounds_inexact_quotients_toward_zero() {
    let a = Matrix2D { contents: [[2, 1], [1, 1]] };
    let (l, u) = a.lu_decomposition();
    assert_eq!(l, Matrix2D { contents: [[1, 0], [0, 1]] });
    assert_eq!(u, Matrix2D { contents: [[2, 1], [0, 1]] });
    assert_ne!(l * u, a);

    let b = Matrix2D { contents: [[2, 1], [-3, 1]] };
    let (l, u) = b.lu_decomposition();
    assert_eq!(l, Matrix2D { contents: [[1, 0], [-1, 1]] });
    assert_eq!(u, Matrix2D { contents: [[2, 1], [0, 2]] });
}

#[test]
fn lu_decomposition_of_one_cell_and_of_none() {
    let a = Matrix2D { contents: [[0]] };
    let (l, u) = a.lu_decomposition();
    assert_eq!(l, Matrix2D { contents: [[1]] });
    assert_eq!(u, Matrix2D { contents: [[0]] });
    let e: Matrix2D<i32, 0, 0> = Matrix2D { contents: [] };
    let (l, u) = e.lu_decomposition();
    assert_eq!(l, e);
    assert_eq!(u, e);
}

#[test]
fn lu_decomposition_accepts_a_zero_last_pivot() {
    let a = Matrix2D { contents: [[1, 2], [2, 4]] };
    let (l, u) = a.lu_decomposition();
    assert_eq!(l, Matrix2D { contents: [[1, 0], [2, 1]] });
    assert_eq!(u, Matrix2D { contents: [[1, 2], [0, 0]] });
    assert_eq!(a.determinant(), 0);
}

#[test]
fn determinant_of_one_cell_is_the_cell() {
    assert_eq!(Matrix2D { contents: [[42]] }.determinant(), 42);
    assert_eq!(Matrix2D { contents: [[-7i8]] }.determinant(), -7);
    assert_eq!(Matrix2D { contents: [[0u8]] }.determinant(), 0);
}

#[test]
fn determinant_agrees_with_direct_expansion() {
    let a = Matrix2D { contents: [[2, 1], [4, 5]] };
    assert_eq!(a.determinant(), 2 * 5 - 1 * 4);
    let b = Matrix2D { contents: [[2i64, 1, 1], [4, 3, 3], [8, 7, 9]] };
    assert_eq!(b.determinant(), 4);
    let c = Matrix2D { contents: [[-1, 2], [3, -4]] };
    assert_eq!(c.determinant(), -2);
    let id: Matrix2D<i32, 3, 3> = Matrix2D::identity();
    assert_eq!(id.determinant(), 1);
}

#[test]
fn determinant_of_the_empty_matrix_is_one() {
    let e: Matrix2D<i32, 0, 0> = Matrix2D { contents: [] };
    assert_eq!(e.determinant(), 1);
}

#[test]
fn determinant_with_rounded_quotient() {
    let a = Matrix2D { contents: [[2, 1], [1, 1]] };
    assert_eq!(a.determinant(), 2);
}

#[test]
fn zero_and_one_of_every_scalar_type() {
    assert_eq!((<u8 as MatrixNumber>::zero(), <u8 as MatrixNumber>::one()), (0, 1));
    assert_eq!((<u16 as MatrixNumber>::zero(), <u16 as MatrixNumber>::one()), (0, 1));
    assert_eq!((<u32 as MatrixNumber>::zero(), <u32 as MatrixNumber>::one()), (0, 1));
    assert_eq!((<u64 as MatrixNumber>::zero(), <u64 as MatrixNumber>::one()), (0, 1));
    assert_eq!((<u128 as MatrixNumber>::zero(), <u128 as MatrixNumber>::one()), (0, 1));
    assert_eq!((<usize as MatrixNumber>::zero(), <usize as MatrixNumber>::one()), (0, 1));
    assert_eq!((<i8 as MatrixNumber>::zero(), <i8 as MatrixNumber>::one()), (0, 1));
    assert_eq!((<i16 as MatrixNumber>::zero(), <i16 as MatrixNumber>::one()), (0, 1));
    assert_eq!((<i32 as MatrixNumber>::zero(), <i32 as MatrixNumber>::one()), (0, 1));
    assert_eq!((<i64 as MatrixNumber>::zero(), <i64 as MatrixNumber>::one()), (0, 1));
    assert_eq!((<i128 as MatrixNumber>::zero(), <i128 as MatrixNumber>::one()), (0, 1));
    assert_eq!((<isize as MatrixNumber>::zero(), <isize as MatrixNumber>::one()), (0, 1));
}

#[test]
fn scalar_arithmetic() {
    assert_eq!(MatrixNumber::plus(3i32, 4), 7);
    assert_eq!(MatrixNumber::minus(3i32, 4), -1);
    assert_eq!(MatrixNumber::times(-3i32, 4), -12);
    assert_eq!(MatrixNumber::plus(200u8, 55), 255);
    assert_eq!(MatrixNumber::minus(5u64, 5), 0);
    assert_eq!(MatrixNumber::times(16u128, 16), 256);
}

#[test]
fn scalar_division_rounds_toward_zero() {
    assert_eq!(MatrixNumber::divided_by(7i32, 2), 3);
    assert_eq!(MatrixNumber::divided_by(-7i32, 2), -3);
    assert_eq!(MatrixNumber::divided_by(7i32, -2), -3);
    assert_eq!(MatrixNumber::divided_by(-7i32, -2), 3);
    assert_eq!(MatrixNumber::divided_by(-128i8, 1), -128);
    assert_eq!(MatrixNumber::divided_by(-127i8, -1), 127);
    assert_eq!(MatrixNumber::divided_by(7u8, 2), 3);
    assert_eq!(MatrixNumber::divided_by(0i64, -5), 0);
}

#[test]
fn scalar_in_place_arithmetic() {
    let mut a = 5i16;
    MatrixNumber::add_assign(&mut a, 7);
    assert_eq!(a, 12);
    MatrixNumber::mul_assign(&mut a, -3);
    assert_eq!(a, -36);
}

#[test]
fn matrices_of_every_width() {
    let a = Matrix2D { contents: [[1u8, 2], [3, 4]] };
    assert_eq!(a * a, Matrix2D { contents: [[7, 10], [15, 22]] });
    let b = Matrix2D { contents: [[1i128, 2], [3, 4]] };
    assert_eq!(b.determinant(), -2);
    let c = Matrix2D { contents: [[1usize, 2], [3, 4]] };
    assert_eq!(c + Matrix2D::identity(), Matrix2D { contents: [[2, 2], [3, 5]] });
}
