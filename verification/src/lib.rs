//! Matrices of fixed dimensions over integer scalars: addition, products with
//! vectors and matrices, determinant and LU decomposition.

pub mod doolittle;
pub mod grid;
pub mod laws;
pub mod matrix_2d;
pub mod matrix_number;
