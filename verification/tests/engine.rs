use matrix_engine::matrix_ops::{Matrix, MatrixError, MatrixOps};
use matrix_engine::rational::Frac;

fn fr(num: i64, den: i64) -> Frac {
    Frac { num, den }
}

fn mat(rows: u32, cols: u32, vals: Vec<i64>) -> Matrix {
    let data: Vec<Frac> = vals.into_iter().map(|v| fr(v, 1)).collect();
    Matrix { rows, cols, data }
}

#[test]
fn multiply_example() {
    let a = mat(2, 2, vec![1, 2, 3, 4]);
    let b = mat(2, 2, vec![5, 6, 7, 8]);
    let c = MatrixOps::matrix_multiply(&a, &b).unwrap();
    assert_eq!(c.rows, 2);
    assert_eq!(c.cols, 2);
    assert_eq!(c.data, vec![fr(19, 1), fr(22, 1), fr(43, 1), fr(50, 1)]);
}

#[test]
fn multiply_rectangular() {
    // (1x3) * (3x1) = 1x1 dot product.
    let a = mat(1, 3, vec![1, 2, 3]);
    let b = mat(3, 1, vec![4, 5, 6]);
    let c = MatrixOps::matrix_multiply(&a, &b).unwrap();
    assert_eq!(c.rows, 1);
    assert_eq!(c.cols, 1);
    assert_eq!(c.data, vec![fr(32, 1)]);
}

#[test]
fn multiply_dimension_mismatch() {
    let a = mat(2, 3, vec![1, 2, 3, 4, 5, 6]);
    let b = mat(2, 2, vec![1, 2, 3, 4]);
    let r = MatrixOps::matrix_multiply(&a, &b);
    assert!(matches!(r, Err(MatrixError::DimensionMismatch)));
}

#[test]
fn multiply_fractional_entries() {
    // [[1/2]] * [[1/3]] = [[1/6]], kept unreduced as 1/6.
    let a = Matrix { rows: 1, cols: 1, data: vec![fr(1, 2)] };
    let b = Matrix { rows: 1, cols: 1, data: vec![fr(1, 3)] };
    let c = MatrixOps::matrix_multiply(&a, &b).unwrap();
    // The accumulation starts from 0/1, so the cell is (0*6 + 1*1) / 6.
    assert_eq!(c.data, vec![fr(1, 6)]);
}

#[test]
fn multiply_out_of_bounds_contributes_zero() {
    // The stated shape claims four entries but the buffer holds three: the
    // missing position contributes zero instead of trapping.
    let a = Matrix { rows: 2, cols: 2, data: vec![fr(1, 1), fr(2, 1), fr(3, 1)] };
    let b = mat(2, 2, vec![1, 0, 0, 1]);
    let c = MatrixOps::matrix_multiply(&a, &b).unwrap();
    assert_eq!(c.rows, 2);
    assert_eq!(c.cols, 2);
    assert_eq!(c.data, vec![fr(1, 1), fr(2, 1), fr(3, 1), fr(0, 1)]);
}

#[test]
fn transpose_row_vector() {
    let a = mat(1, 3, vec![1, 2, 3]);
    let t = MatrixOps::matrix_transpose(&a).unwrap();
    assert_eq!(t.rows, 3);
    assert_eq!(t.cols, 1);
    assert_eq!(t.data, vec![fr(1, 1), fr(2, 1), fr(3, 1)]);
}

#[test]
fn transpose_involution() {
    let a = mat(2, 3, vec![1, 2, 3, 4, 5, 6]);
    let t1 = MatrixOps::matrix_transpose(&a).unwrap();
    assert_eq!(t1.rows, 3);
    assert_eq!(t1.cols, 2);
    assert_eq!(t1.data, vec![fr(1, 1), fr(4, 1), fr(2, 1), fr(5, 1), fr(3, 1), fr(6, 1)]);
    let t2 = MatrixOps::matrix_transpose(&t1).unwrap();
    assert_eq!(t2.rows, a.rows);
    assert_eq!(t2.cols, a.cols);
    assert_eq!(t2.data, a.data);
}

#[test]
fn inverse_example() {
    let a = mat(2, 2, vec![4, 7, 2, 6]);
    let inv = MatrixOps::matrix_inverse(&a).unwrap();
    assert_eq!(inv.rows, 2);
    assert_eq!(inv.cols, 2);
    // det = 10, inverse = [[6/10, -7/10], [-2/10, 4/10]], unreduced.
    assert_eq!(inv.data, vec![fr(6, 10), fr(-7, 10), fr(-2, 10), fr(4, 10)]);
}

#[test]
fn inverse_round_trip_is_identity() {
    let a = mat(2, 2, vec![4, 7, 2, 6]);
    let inv = MatrixOps::matrix_inverse(&a).unwrap();
    let prod = MatrixOps::matrix_multiply(&a, &inv).unwrap();
    // Each diagonal cell denotes 1 and each off-diagonal cell denotes 0.
    assert_eq!(prod.data[0].num, prod.data[0].den);
    assert_eq!(prod.data[1].num, 0);
    assert_eq!(prod.data[2].num, 0);
    assert_eq!(prod.data[3].num, prod.data[3].den);
    assert_ne!(prod.data[0].den, 0);
    assert_ne!(prod.data[1].den, 0);
}

#[test]
fn inverse_singular() {
    let a = mat(2, 2, vec![1, 2, 2, 4]);
    let r = MatrixOps::matrix_inverse(&a);
    assert!(matches!(r, Err(MatrixError::SingularMatrix)));
}

#[test]
fn inverse_below_epsilon_is_singular() {
    // det = 1 / 20000000000, magnitude below the fixed 1e-10 guard.
    let a = Matrix {
        rows: 2,
        cols: 2,
        data: vec![fr(1, 1), fr(1, 1), fr(1, 1), fr(20000000001, 20000000000)],
    };
    let r = MatrixOps::matrix_inverse(&a);
    assert!(matches!(r, Err(MatrixError::SingularMatrix)));
}

#[test]
fn inverse_at_epsilon_is_invertible() {
    // det = 1 / 10000000000, magnitude exactly 1e-10: not below the guard.
    let a = Matrix {
        rows: 2,
        cols: 2,
        data: vec![fr(1, 10000000000), fr(0, 1), fr(0, 1), fr(1, 1)],
    };
    let inv = MatrixOps::matrix_inverse(&a).unwrap();
    assert_eq!(
        inv.data,
        vec![fr(10000000000, 1), fr(0, 1), fr(0, 1), fr(10000000000, 10000000000)]
    );
}

#[test]
fn inverse_non_square() {
    let a = mat(2, 3, vec![1, 2, 3, 4, 5, 6]);
    let r = MatrixOps::matrix_inverse(&a);
    assert!(matches!(r, Err(MatrixError::NonSquareMatrix)));
}

#[test]
fn inverse_unsupported_square_size() {
    let a = mat(3, 3, vec![1, 0, 0, 0, 1, 0, 0, 0, 1]);
    let r = MatrixOps::matrix_inverse(&a);
    assert!(matches!(r, Err(MatrixError::InvalidOperation)));
}

#[test]
fn inverse_one_by_one_unsupported() {
    let a = mat(1, 1, vec![5]);
    let r = MatrixOps::matrix_inverse(&a);
    assert!(matches!(r, Err(MatrixError::InvalidOperation)));
}

#[test]
fn add_exact() {
    let a = mat(2, 2, vec![1, 2, 3, 4]);
    let b = mat(2, 2, vec![5, 6, 7, 8]);
    let c = MatrixOps::matrix_add(&a, &b).unwrap();
    assert_eq!(c.rows, 2);
    assert_eq!(c.cols, 2);
    assert_eq!(c.data, vec![fr(6, 1), fr(8, 1), fr(10, 1), fr(12, 1)]);
}

#[test]
fn subtract_exact() {
    let a = mat(2, 2, vec![1, 2, 3, 4]);
    let b = mat(2, 2, vec![5, 6, 7, 8]);
    let c = MatrixOps::matrix_subtract(&a, &b).unwrap();
    assert_eq!(c.data, vec![fr(-4, 1), fr(-4, 1), fr(-4, 1), fr(-4, 1)]);
}

#[test]
fn add_fractional() {
    // 1/2 + 1/3 = (1*3 + 1*2) / 6 = 5/6.
    let a = Matrix { rows: 1, cols: 1, data: vec![fr(1, 2)] };
    let b = Matrix { rows: 1, cols: 1, data: vec![fr(1, 3)] };
    let c = MatrixOps::matrix_add(&a, &b).unwrap();
    assert_eq!(c.data, vec![fr(5, 6)]);
}

#[test]
fn add_shape_mismatch() {
    let a = mat(2, 2, vec![1, 2, 3, 4]);
    let b = mat(3, 2, vec![1, 2, 3, 4, 5, 6]);
    let r = MatrixOps::matrix_add(&a, &b);
    assert!(matches!(r, Err(MatrixError::DimensionMismatch)));
}

#[test]
fn subtract_shape_mismatch() {
    let a = mat(2, 2, vec![1, 2, 3, 4]);
    let b = mat(3, 2, vec![1, 2, 3, 4, 5, 6]);
    let r = MatrixOps::matrix_subtract(&a, &b);
    assert!(matches!(r, Err(MatrixError::DimensionMismatch)));
}

#[test]
fn add_zips_to_shorter_buffer() {
    // Matching stated shapes, but one buffer is short: the result truncates
    // to the shorter buffer.
    let a = mat(2, 2, vec![1, 2, 3, 4]);
    let b = Matrix { rows: 2, cols: 2, data: vec![fr(1, 1), fr(1, 1), fr(1, 1)] };
    let c = MatrixOps::matrix_add(&a, &b).unwrap();
    assert_eq!(c.rows, 2);
    assert_eq!(c.cols, 2);
    assert_eq!(c.data, vec![fr(2, 1), fr(3, 1), fr(4, 1)]);
}

#[test]
fn error_messages() {
    assert_eq!(
        MatrixError::DimensionMismatch.message(),
        "Matrix dimensions do not match for the requested operation"
    );
    assert_eq!(MatrixError::NonSquareMatrix.message(), "Operation requires a square matrix");
    assert_eq!(
        MatrixError::SingularMatrix.message(),
        "Matrix is singular and cannot be inverted"
    );
    assert_eq!(MatrixError::InvalidOperation.message(), "Invalid matrix operation requested");
}
