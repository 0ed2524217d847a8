use matrix_engine::matrix_ops::{Matrix, MatrixComputeRequest, MatrixOps};
use matrix_engine::rational::Frac;

fn fr(num: i64, den: i64) -> Frac {
    Frac { num, den }
}

fn mat(rows: u32, cols: u32, vals: Vec<i64>) -> Matrix {
    let data: Vec<Frac> = vals.into_iter().map(|v| fr(v, 1)).collect();
    Matrix { rows, cols, data }
}

fn request(
    operation: &str,
    matrix_a: Option<Matrix>,
    matrix_b: Option<Matrix>,
) -> MatrixComputeRequest {
    MatrixComputeRequest {
        operation: operation.to_string(),
        matrix_a,
        matrix_b,
        task_id: "task-1".to_string(),
    }
}

#[test]
fn missing_matrix_a() {
    let req = request("multiply", None, Some(mat(2, 2, vec![1, 2, 3, 4])));
    let resp = MatrixOps::process_request(req);
    assert!(resp.result.is_none());
    assert_eq!(resp.status, "failed");
    assert_eq!(resp.error_message, "Missing matrix A");
    assert_eq!(resp.execution_time_ms, 0);
    assert_eq!(resp.task_id, "task-1");
}

#[test]
fn unknown_operation() {
    let req = request("foo", Some(mat(2, 2, vec![1, 2, 3, 4])), None);
    let resp = MatrixOps::process_request(req);
    assert!(resp.result.is_none());
    assert_eq!(resp.status, "failed");
    assert_eq!(resp.error_message, "Invalid matrix operation requested");
    assert_eq!(resp.execution_time_ms, 0);
}

#[test]
fn operation_tags_are_case_sensitive() {
    let req = request("Multiply", Some(mat(2, 2, vec![1, 2, 3, 4])), Some(mat(2, 2, vec![1, 2, 3, 4])));
    let resp = MatrixOps::process_request(req);
    assert_eq!(resp.status, "failed");
    assert_eq!(resp.error_message, "Invalid matrix operation requested");
}

#[test]
fn dispatch_multiply() {
    let req = request(
        "multiply",
        Some(mat(2, 2, vec![1, 2, 3, 4])),
        Some(mat(2, 2, vec![5, 6, 7, 8])),
    );
    let resp = MatrixOps::process_request(req);
    assert_eq!(resp.status, "completed");
    assert_eq!(resp.error_message, "");
    assert_eq!(resp.task_id, "task-1");
    let c = resp.result.unwrap();
    assert_eq!(c.data, vec![fr(19, 1), fr(22, 1), fr(43, 1), fr(50, 1)]);
}

#[test]
fn dispatch_multiply_without_b() {
    let req = request("multiply", Some(mat(2, 2, vec![1, 2, 3, 4])), None);
    let resp = MatrixOps::process_request(req);
    assert!(resp.result.is_none());
    assert_eq!(resp.status, "failed");
    assert_eq!(
        resp.error_message,
        "Matrix dimensions do not match for the requested operation"
    );
    assert_eq!(resp.execution_time_ms, 0);
}

#[test]
fn dispatch_multiply_mismatch() {
    let req = request(
        "multiply",
        Some(mat(2, 3, vec![1, 2, 3, 4, 5, 6])),
        Some(mat(2, 2, vec![1, 2, 3, 4])),
    );
    let resp = MatrixOps::process_request(req);
    assert_eq!(resp.status, "failed");
    assert_eq!(
        resp.error_message,
        "Matrix dimensions do not match for the requested operation"
    );
}

#[test]
fn dispatch_transpose() {
    let req = request("transpose", Some(mat(1, 3, vec![1, 2, 3])), None);
    let resp = MatrixOps::process_request(req);
    assert_eq!(resp.status, "completed");
    let t = resp.result.unwrap();
    assert_eq!(t.rows, 3);
    assert_eq!(t.cols, 1);
    assert_eq!(t.data, vec![fr(1, 1), fr(2, 1), fr(3, 1)]);
}

#[test]
fn dispatch_inverse() {
    let req = request("inverse", Some(mat(2, 2, vec![4, 7, 2, 6])), None);
    let resp = MatrixOps::process_request(req);
    assert_eq!(resp.status, "completed");
    let inv = resp.result.unwrap();
    assert_eq!(inv.data, vec![fr(6, 10), fr(-7, 10), fr(-2, 10), fr(4, 10)]);
}

#[test]
fn dispatch_inverse_singular() {
    let req = request("inverse", Some(mat(2, 2, vec![1, 2, 2, 4])), None);
    let resp = MatrixOps::process_request(req);
    assert_eq!(resp.status, "failed");
    assert_eq!(resp.error_message, "Matrix is singular and cannot be inverted");
}

#[test]
fn dispatch_inverse_non_square() {
    let req = request("inverse", Some(mat(2, 3, vec![1, 2, 3, 4, 5, 6])), None);
    let resp = MatrixOps::process_request(req);
    assert_eq!(resp.status, "failed");
    assert_eq!(resp.error_message, "Operation requires a square matrix");
}

#[test]
fn dispatch_inverse_unsupported_size() {
    let req = request("inverse", Some(mat(3, 3, vec![1, 0, 0, 0, 1, 0, 0, 0, 1])), None);
    let resp = MatrixOps::process_request(req);
    assert_eq!(resp.status, "failed");
    assert_eq!(resp.error_message, "Invalid matrix operation requested");
}

#[test]
fn dispatch_add() {
    let req = request(
        "add",
        Some(mat(2, 2, vec![1, 2, 3, 4])),
        Some(mat(2, 2, vec![5, 6, 7, 8])),
    );
    let resp = MatrixOps::process_request(req);
    assert_eq!(resp.status, "completed");
    let c = resp.result.unwrap();
    assert_eq!(c.data, vec![fr(6, 1), fr(8, 1), fr(10, 1), fr(12, 1)]);
}

#[test]
fn dispatch_add_without_b() {
    let req = request("add", Some(mat(2, 2, vec![1, 2, 3, 4])), None);
    let resp = MatrixOps::process_request(req);
    assert_eq!(resp.status, "failed");
    assert_eq!(
        resp.error_message,
        "Matrix dimensions do not match for the requested operation"
    );
}

#[test]
fn dispatch_add_shape_mismatch() {
    let req = request(
        "add",
        Some(mat(2, 2, vec![1, 2, 3, 4])),
        Some(mat(3, 2, vec![1, 2, 3, 4, 5, 6])),
    );
    let resp = MatrixOps::process_request(req);
    assert_eq!(resp.status, "failed");
    assert_eq!(
        resp.error_message,
        "Matrix dimensions do not match for the requested operation"
    );
}

#[test]
fn dispatch_subtract() {
    let req = request(
        "subtract",
        Some(mat(2, 2, vec![5, 6, 7, 8])),
        Some(mat(2, 2, vec![1, 2, 3, 4])),
    );
    let resp = MatrixOps::process_request(req);
    assert_eq!(resp.status, "completed");
    let c = resp.result.unwrap();
    assert_eq!(c.data, vec![fr(4, 1), fr(4, 1), fr(4, 1), fr(4, 1)]);
}

#[test]
fn dispatch_subtract_without_b() {
    let req = request("subtract", Some(mat(2, 2, vec![1, 2, 3, 4])), None);
    let resp = MatrixOps::process_request(req);
    assert_eq!(resp.status, "failed");
    assert_eq!(
        resp.error_message,
        "Matrix dimensions do not match for the requested operation"
    );
}
