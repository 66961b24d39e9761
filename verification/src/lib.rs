//! Dense row-major matrices over wrapping integer scalars, with four
//! multiplication strategies that are proved to compute the same product.

pub mod number;
pub mod unsigned;
pub mod signed;
pub mod grid;
pub mod mat;
pub mod laws;
pub mod multiply;
pub mod compare;
pub mod draws;

pub use compare::compare_mats;
pub use draws::mat_from_draws;
pub use grid::Grid;
pub use mat::{Mat, MatError};
pub use multiply::{
    mul_normal, mul_transposed, mul_unrolled, mul_unrolled_by, mul_with_transposed, unrolled_step,
};
pub use number::Number;
