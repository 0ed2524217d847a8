//! A dense-matrix arithmetic engine over exact rational entries.
//!
//! The engine accepts a typed operation request (multiply, transpose,
//! inverse, add, subtract) against one or two row-major matrices and returns
//! either a correctly shaped result matrix or a typed failure.  A thin
//! dispatcher wraps timing and response-envelope construction around the
//! engine call.

pub mod clock;
pub mod laws;
pub mod matrix_ops;
pub mod rational;
