//! The matrix engine: five operations over row-major matrices of exact
//! rational entries, and the request dispatcher around them.
//!
//! A matrix carries its stated shape (`rows`, `cols`) and a flat row-major
//! buffer; the element at logical position `(i, j)` lives at flat index
//! `i * cols + j`.  The operations are total over every well-formed input
//! whose arithmetic stays in machine range; preconditions state exactly
//! those machine limits and nothing else.

use vstd::math::abs;
use vstd::prelude::*;
use vstd::string::StringExecFns;

use crate::rational::{rat_add, rat_div, rat_fits, rat_mul, rat_neg, rat_sub, rat_zero, Frac, Rat};

verus! {

/// The closed taxonomy of engine failures.
#[derive(Clone, Copy, Debug, PartialEq, Eq, Structural)]
pub enum MatrixError {
    DimensionMismatch,
    NonSquareMatrix,
    SingularMatrix,
    InvalidOperation,
}

/// The human-readable text of each engine failure.
pub open spec fn error_text(e: MatrixError) -> Seq<char> {
    match e {
        MatrixError::DimensionMismatch => "Matrix dimensions do not match for the requested operation"@,
        MatrixError::NonSquareMatrix => "Operation requires a square matrix"@,
        MatrixError::SingularMatrix => "Matrix is singular and cannot be inverted"@,
        MatrixError::InvalidOperation => "Invalid matrix operation requested"@,
    }
}

impl MatrixError {
    /// The human-readable failure message carried in a failed response.
    pub fn message(&self) -> (r: String)
        ensures
            r@ == error_text(*self),
    {
        match self {
            MatrixError::DimensionMismatch => String::from_str(
                "Matrix dimensions do not match for the requested operation",
            ),
            MatrixError::NonSquareMatrix => String::from_str("Operation requires a square matrix"),
            MatrixError::SingularMatrix => String::from_str(
                "Matrix is singular and cannot be inverted",
            ),
            MatrixError::InvalidOperation => String::from_str("Invalid matrix operation requested"),
        }
    }
}

/// A dense matrix: stated shape plus a flat row-major buffer of exact
/// rational entries.  The fields are public and unconstrained, so a value
/// whose buffer length disagrees with `rows * cols` is representable;
/// [`well_formed`] names the intended invariant, and each operation states
/// precisely how it treats buffers that violate it.
#[derive(Clone, Debug)]
pub struct Matrix {
    pub rows: u32,
    pub cols: u32,
    pub data: Vec<Frac>,
}

/// The structural invariant of a matrix: the buffer holds exactly one entry
/// per logical position.
pub open spec fn well_formed(m: Matrix) -> bool {
    m.data@.len() == m.rows * m.cols
}

/// Whether two matrices have the same shape.
pub open spec fn same_shape(a: Matrix, b: Matrix) -> bool {
    a.rows == b.rows && a.cols == b.cols
}

/// The flat row-major index of logical position `(i, j)` in a buffer of
/// `cols` columns.
pub open spec fn flat(i: int, cols: int, j: int) -> int {
    i * cols + j
}

/// The value at logical position `(i, j)` of a matrix.
pub open spec fn entry(m: Matrix, i: int, j: int) -> Rat {
    m.data@[flat(i, m.cols as int, j)]@
}

/// The value at logical position `(i, j)` of a flat buffer with `cols`
/// columns; used to speak about partially built result buffers.
pub open spec fn seq_entry(s: Seq<Frac>, cols: int, i: int, j: int) -> Rat {
    s[flat(i, cols, j)]@
}

/// A flat row-major index lies below the end of its block of full rows.
pub(crate) proof fn lemma_flat_lt(p: int, q: int, r: int, c: int) by (nonlinear_arith)
    requires
        0 <= p < r,
        0 <= q < c,
    ensures
        0 <= p * c + q,
        p * c + q < r * c,
{
}

// ---------------------------------------------------------------------------
// Multiplication
// ---------------------------------------------------------------------------

/// The `k`-th summand of the product cell `(i, j)`: the entry product
/// `A[i,k] * B[k,j]` when both flat indices fall inside the actual buffers,
/// and zero otherwise.  The zero branch can only be taken for a matrix whose
/// buffer length disagrees with its stated shape; an out-of-bounds position
/// then contributes nothing rather than trapping.
pub open spec fn mul_term(a: Matrix, b: Matrix, i: int, j: int, k: int) -> Rat {
    if 0 <= flat(i, a.cols as int, k) < a.data@.len() && 0 <= flat(k, b.cols as int, j)
        < b.data@.len() {
        rat_mul(
            a.data@[flat(i, a.cols as int, k)]@,
            b.data@[flat(k, b.cols as int, j)]@,
        )
    } else {
        rat_zero()
    }
}

/// The sum of the first `k` summands of the product cell `(i, j)`, taken in
/// increasing `k` order.
pub open spec fn cell_prefix(a: Matrix, b: Matrix, i: int, j: int, k: int) -> Rat
    decreases k,
{
    if k <= 0 {
        rat_zero()
    } else {
        rat_add(cell_prefix(a, b, i, j, k - 1), mul_term(a, b, i, j, k - 1))
    }
}

/// The full product cell: `Σ_k A[i,k] * B[k,j]` over `k < A.cols`.
pub open spec fn product_cell(a: Matrix, b: Matrix, i: int, j: int) -> Rat {
    cell_prefix(a, b, i, j, a.cols as int)
}

/// One accumulation step of the product stays in `i64` range: both the
/// summand and the new partial sum fit.
pub open spec fn mul_step_ok(a: Matrix, b: Matrix, i: int, j: int, k: int) -> bool {
    rat_fits(mul_term(a, b, i, j, k)) && rat_fits(cell_prefix(a, b, i, j, k + 1))
}

/// Every accumulation step of the whole product stays in `i64` range.
pub open spec fn multiply_in_range(a: Matrix, b: Matrix) -> bool {
    forall|i: int, j: int, k: int|
        0 <= i < a.rows && 0 <= j < b.cols && 0 <= k < a.cols ==> #[trigger] mul_step_ok(
            a,
            b,
            i,
            j,
            k,
        )
}

/// The index arithmetic of the product stays within the machine word.
pub open spec fn multiply_dims_fit(a: Matrix, b: Matrix) -> bool {
    &&& a.rows * a.cols <= usize::MAX
    &&& b.rows * b.cols <= usize::MAX
    &&& a.rows * b.cols <= usize::MAX
}

/// `c` is the matrix product of `a` and `b`: shape `a.rows × b.cols`, every
/// cell the ordered sum `Σ_k A[i,k] * B[k,j]`.
pub open spec fn is_product_of(a: Matrix, b: Matrix, c: Matrix) -> bool {
    &&& c.rows == a.rows
    &&& c.cols == b.cols
    &&& well_formed(c)
    &&& forall|i: int, j: int|
        0 <= i < a.rows && 0 <= j < b.cols ==> #[trigger] entry(c, i, j) == product_cell(a, b, i, j)
}

// ---------------------------------------------------------------------------
// Transposition
// ---------------------------------------------------------------------------

/// `t` is the transpose of `a`: shape `a.cols × a.rows` with
/// `t[i,j] == a[j,i]` everywhere — entry values are carried over verbatim.
pub open spec fn is_transpose_of(a: Matrix, t: Matrix) -> bool {
    &&& t.rows == a.cols
    &&& t.cols == a.rows
    &&& well_formed(t)
    &&& forall|i: int, j: int|
        0 <= i < t.rows && 0 <= j < t.cols ==> #[trigger] t.data@[flat(i, t.cols as int, j)]
            == a.data@[flat(j, a.cols as int, i)]
}

// ---------------------------------------------------------------------------
// Addition and subtraction
// ---------------------------------------------------------------------------

/// The element-wise zip length: the shorter of the two buffers.  For
/// well-formed operands of equal shape the two lengths agree and this is the
/// full size.
pub open spec fn zip_len(a: Matrix, b: Matrix) -> int {
    if a.data@.len() <= b.data@.len() {
        a.data@.len() as int
    } else {
        b.data@.len() as int
    }
}

/// The `t`-th element of the element-wise sum.
pub open spec fn sum_entry(a: Matrix, b: Matrix, t: int) -> Rat {
    rat_add(a.data@[t]@, b.data@[t]@)
}

/// The `t`-th element of the element-wise difference.
pub open spec fn diff_entry(a: Matrix, b: Matrix, t: int) -> Rat {
    rat_sub(a.data@[t]@, b.data@[t]@)
}

/// Every element-wise sum stays in `i64` range.
pub open spec fn add_in_range(a: Matrix, b: Matrix) -> bool {
    forall|t: int| 0 <= t < zip_len(a, b) ==> rat_fits(#[trigger] sum_entry(a, b, t))
}

/// Every element-wise difference stays in `i64` range.
pub open spec fn sub_in_range(a: Matrix, b: Matrix) -> bool {
    forall|t: int| 0 <= t < zip_len(a, b) ==> rat_fits(#[trigger] diff_entry(a, b, t))
}

/// `c` is the element-wise sum of `a` and `b` over the zipped buffers, with
/// `a`'s shape.
pub open spec fn is_sum_of(a: Matrix, b: Matrix, c: Matrix) -> bool {
    &&& c.rows == a.rows
    &&& c.cols == a.cols
    &&& c.data@.len() == zip_len(a, b)
    &&& forall|t: int| 0 <= t < zip_len(a, b) ==> (#[trigger] c.data@[t])@ == sum_entry(a, b, t)
}

/// `c` is the element-wise difference of `a` and `b` over the zipped
/// buffers, with `a`'s shape.
pub open spec fn is_difference_of(a: Matrix, b: Matrix, c: Matrix) -> bool {
    &&& c.rows == a.rows
    &&& c.cols == a.cols
    &&& c.data@.len() == zip_len(a, b)
    &&& forall|t: int| 0 <= t < zip_len(a, b) ==> (#[trigger] c.data@[t])@ == diff_entry(a, b, t)
}

// ---------------------------------------------------------------------------
// Inversion
// ---------------------------------------------------------------------------

/// The determinant of a 2×2 matrix, read row-major from the buffer:
/// `a11*a22 - a12*a21`.
pub open spec fn det2(a: Matrix) -> Rat {
    rat_sub(rat_mul(a.data@[0]@, a.data@[3]@), rat_mul(a.data@[1]@, a.data@[2]@))
}

/// The singularity guard: the determinant's magnitude lies below the fixed
/// epsilon `1e-10`.  For a fraction `n/d` that is `|n| * 10^10 < |d|`, which
/// the exact arithmetic decides without rounding; a determinant that is
/// exactly zero always passes the guard (for any valid, nonzero
/// denominator).
pub open spec fn near_singular(d: Rat) -> bool {
    abs(d.n) * 10000000000 < abs(d.d)
}

/// The closed-form 2×2 inversion stays in `i64` range: the determinant
/// products do, and, when the matrix is invertible, so do the four divided
/// adjugate entries.
pub open spec fn inverse_in_range(a: Matrix) -> bool {
    &&& rat_fits(rat_mul(a.data@[0]@, a.data@[3]@))
    &&& rat_fits(rat_mul(a.data@[1]@, a.data@[2]@))
    &&& rat_fits(det2(a))
    &&& (!near_singular(det2(a)) ==> {
        &&& rat_fits(rat_neg(a.data@[1]@))
        &&& rat_fits(rat_neg(a.data@[2]@))
        &&& rat_fits(rat_div(a.data@[3]@, det2(a)))
        &&& rat_fits(rat_div(rat_neg(a.data@[1]@), det2(a)))
        &&& rat_fits(rat_div(rat_neg(a.data@[2]@), det2(a)))
        &&& rat_fits(rat_div(a.data@[0]@, det2(a)))
    })
}

/// `m` is the closed-form inverse of the 2×2 matrix `a`:
/// `(1/det) * [[a22, -a12], [-a21, a11]]`.
pub open spec fn is_inverse_of(a: Matrix, m: Matrix) -> bool {
    &&& m.rows == 2
    &&& m.cols == 2
    &&& m.data@.len() == 4
    &&& m.data@[0]@ == rat_div(a.data@[3]@, det2(a))
    &&& m.data@[1]@ == rat_div(rat_neg(a.data@[1]@), det2(a))
    &&& m.data@[2]@ == rat_div(rat_neg(a.data@[2]@), det2(a))
    &&& m.data@[3]@ == rat_div(a.data@[0]@, det2(a))
}

/// The namespace of the engine's operations.
pub struct MatrixOps;

impl MatrixOps {
    /// Matrix multiplication `C = A * B`.
    ///
    /// Succeeds exactly when `A.cols == B.rows`; the result has shape
    /// `A.rows × B.cols` and every cell is the sum `Σ_k A[i,k] * B[k,j]`,
    /// accumulated in increasing `k` order.  A flat index that falls outside
    /// an actual buffer (possible only when a stated shape disagrees with
    /// the buffer length) contributes zero rather than trapping.  The
    /// precondition asks only that the accumulation stays in `i64` range and
    /// that the index arithmetic fits the machine word.
    pub fn matrix_multiply(a: &Matrix, b: &Matrix) -> (r: Result<Matrix, MatrixError>)
        requires
            a.cols == b.rows ==> multiply_in_range(*a, *b) && multiply_dims_fit(*a, *b),
        ensures
            match r {
                Ok(c) => a.cols == b.rows && is_product_of(*a, *b, c),
                Err(e) => a.cols != b.rows && e == MatrixError::DimensionMismatch,
            },
    {
        if a.cols != b.rows {
            return Err(MatrixError::DimensionMismatch);
        }
        let m: usize = a.rows as usize;
        let p: usize = b.cols as usize;
        let n: usize = a.cols as usize;
        let mut out: Vec<Frac> = Vec::new();
        let mut i: usize = 0;
        while i < m
            invariant
                a.cols == b.rows,
                multiply_in_range(*a, *b),
                multiply_dims_fit(*a, *b),
                m == a.rows,
                p == b.cols,
                n == a.cols,
                i <= m,
                out@.len() == i * p,
                forall|pi: int, qj: int|
                    0 <= pi < i && 0 <= qj < p ==> #[trigger] seq_entry(out@, p as int, pi, qj)
                        == product_cell(*a, *b, pi, qj),
            decreases m - i,
        {
            let mut j: usize = 0;
            while j < p
                invariant
                    a.cols == b.rows,
                    multiply_in_range(*a, *b),
                    multiply_dims_fit(*a, *b),
                    m == a.rows,
                    p == b.cols,
                    n == a.cols,
                    i < m,
                    j <= p,
                    out@.len() == i * p + j,
                    forall|pi: int, qj: int|
                        0 <= pi && 0 <= qj < p && (pi < i || (pi == i && qj < j))
                            ==> #[trigger] seq_entry(out@, p as int, pi, qj) == product_cell(
                            *a,
                            *b,
                            pi,
                            qj,
                        ),
                decreases p - j,
            {
                let mut acc: Frac = Frac::zero();
                let mut k: usize = 0;
                while k < n
                    invariant
                        a.cols == b.rows,
                        multiply_in_range(*a, *b),
                        multiply_dims_fit(*a, *b),
                        m == a.rows,
                        p == b.cols,
                        n == a.cols,
                        i < m,
                        j < p,
                        k <= n,
                        acc@ == cell_prefix(*a, *b, i as int, j as int, k as int),
                    decreases n - k,
                {
                    proof {
                        lemma_flat_lt(i as int, k as int, m as int, n as int);
                        lemma_flat_lt(k as int, j as int, n as int, p as int);
                        assert(mul_step_ok(*a, *b, i as int, j as int, k as int));
                    }
                    let ai: usize = i * n + k;
                    let bi: usize = k * p + j;
                    if ai < a.data.len() && bi < b.data.len() {
                        let t = a.data[ai].mul(b.data[bi]);
                        acc = acc.add(t);
                    } else {
                        proof {
                            assert(rat_add(acc@, rat_zero()) == acc@);
                        }
                    }
                    k += 1;
                }
                let ghost old_out = out@;
                out.push(acc);
                proof {
                    assert forall|pi: int, qj: int|
                        0 <= pi && 0 <= qj < p && (pi < i || (pi == i && qj < j + 1))
                            implies #[trigger] seq_entry(out@, p as int, pi, qj) == product_cell(
                        *a,
                        *b,
                        pi,
                        qj,
                    ) by {
                        if pi == i as int && qj == j as int {
                            assert(out@[flat(pi, p as int, qj)] == acc);
                        } else {
                            if pi < i {
                                lemma_flat_lt(pi, qj, i as int, p as int);
                            }
                            assert(seq_entry(old_out, p as int, pi, qj) == product_cell(
                                *a,
                                *b,
                                pi,
                                qj,
                            ));
                        }
                    }
                }
                j += 1;
            }
            proof {
                assert((i as int + 1) * (p as int) == (i as int) * (p as int) + (p as int))
                    by (nonlinear_arith);
            }
            i += 1;
        }
        let res = Matrix { rows: a.rows, cols: b.cols, data: out };
        proof {
            assert forall|ii: int, jj: int|
                0 <= ii < a.rows && 0 <= jj < b.cols implies #[trigger] entry(res, ii, jj)
                == product_cell(*a, *b, ii, jj) by {
                assert(seq_entry(res.data@, p as int, ii, jj) == product_cell(*a, *b, ii, jj));
            }
        }
        Ok(res)
    }

    /// Matrix transposition `T = Aᵀ`.
    ///
    /// Always succeeds; the result has shape `A.cols × A.rows` and
    /// `T[i,j] == A[j,i]` everywhere.  The precondition asks only that the
    /// buffer actually holds every logical position, which is exactly what
    /// keeps the reads in bounds.
    pub fn matrix_transpose(a: &Matrix) -> (r: Result<Matrix, MatrixError>)
        requires
            a.rows * a.cols <= a.data@.len(),
        ensures
            match r {
                Ok(t) => is_transpose_of(*a, t),
                Err(_) => false,
            },
    {
        let rows: usize = a.rows as usize;
        let cols: usize = a.cols as usize;
        let dlen: usize = a.data.len();
        let mut out: Vec<Frac> = Vec::new();
        let mut i: usize = 0;
        while i < cols
            invariant
                a.rows * a.cols <= a.data@.len(),
                rows == a.rows,
                cols == a.cols,
                dlen == a.data@.len(),
                i <= cols,
                out@.len() == i * rows,
                forall|pi: int, qj: int|
                    0 <= pi < i && 0 <= qj < rows ==> #[trigger] out@[flat(pi, rows as int, qj)]
                        == a.data@[flat(qj, cols as int, pi)],
            decreases cols - i,
        {
            let mut j: usize = 0;
            while j < rows
                invariant
                    a.rows * a.cols <= a.data@.len(),
                    rows == a.rows,
                    cols == a.cols,
                    dlen == a.data@.len(),
                    i < cols,
                    j <= rows,
                    out@.len() == i * rows + j,
                    forall|pi: int, qj: int|
                        0 <= pi && 0 <= qj < rows && (pi < i || (pi == i && qj < j))
                            ==> #[trigger] out@[flat(pi, rows as int, qj)] == a.data@[flat(
                            qj,
                            cols as int,
                            pi,
                        )],
                decreases rows - j,
            {
                proof {
                    lemma_flat_lt(j as int, i as int, rows as int, cols as int);
                }
                let src: usize = j * cols + i;
                let ghost old_out = out@;
                out.push(a.data[src]);
                proof {
                    assert forall|pi: int, qj: int|
                        0 <= pi && 0 <= qj < rows && (pi < i || (pi == i && qj < j + 1))
                            implies #[trigger] out@[flat(pi, rows as int, qj)] == a.data@[flat(
                        qj,
                        cols as int,
                        pi,
                    )] by {
                        if pi == i as int && qj == j as int {
                            assert(out@[flat(pi, rows as int, qj)] == a.data@[src as int]);
                        } else {
                            if pi < i {
                                lemma_flat_lt(pi, qj, i as int, rows as int);
                            }
                            assert(old_out[flat(pi, rows as int, qj)] == a.data@[flat(
                                qj,
                                cols as int,
                                pi,
                            )]);
                        }
                    }
                }
                j += 1;
            }
            proof {
                assert((i as int + 1) * (rows as int) == (i as int) * (rows as int) + (rows as int))
                    by (nonlinear_arith);
            }
            i += 1;
        }
        let res = Matrix { rows: a.cols, cols: a.rows, data: out };
        proof {
            assert((cols as int) * (rows as int) == (rows as int) * (cols as int))
                by (nonlinear_arith);
            assert forall|ii: int, jj: int|
                0 <= ii < res.rows && 0 <= jj < res.cols implies #[trigger] res.data@[flat(
                ii,
                res.cols as int,
                jj,
            )] == a.data@[flat(jj, a.cols as int, ii)] by {
                assert(res.data@[flat(ii, rows as int, jj)] == a.data@[flat(jj, cols as int, ii)]);
            }
        }
        Ok(res)
    }

    /// Matrix inversion `M = A⁻¹`, supported analytically for 2×2 only.
    ///
    /// A non-square matrix is rejected with `NonSquareMatrix`.  For a 2×2
    /// matrix the determinant `a11*a22 - a12*a21` is computed exactly; a
    /// determinant of magnitude below the fixed epsilon `1e-10` is rejected
    /// with `SingularMatrix`, and otherwise the result is
    /// `(1/det) * [[a22, -a12], [-a21, a11]]`.  Any other square size is
    /// rejected with `InvalidOperation` — a deliberate scope limit.  The
    /// precondition asks only that a 2×2 buffer holds its four entries and
    /// that the closed-form arithmetic stays in `i64` range.
    pub fn matrix_inverse(a: &Matrix) -> (r: Result<Matrix, MatrixError>)
        requires
            a.rows == a.cols && a.rows == 2 ==> a.data@.len() >= 4 && inverse_in_range(*a),
        ensures
            match r {
                Ok(m) => a.rows == a.cols && a.rows == 2 && !near_singular(det2(*a))
                    && is_inverse_of(*a, m),
                Err(MatrixError::NonSquareMatrix) => a.rows != a.cols,
                Err(MatrixError::SingularMatrix) => a.rows == a.cols && a.rows == 2
                    && near_singular(det2(*a)),
                Err(MatrixError::InvalidOperation) => a.rows == a.cols && a.rows != 2,
                Err(MatrixError::DimensionMismatch) => false,
            },
    {
        if a.rows != a.cols {
            return Err(MatrixError::NonSquareMatrix);
        }
        if a.rows == 2 {
            let a11 = a.data[0];
            let a12 = a.data[1];
            let a21 = a.data[2];
            let a22 = a.data[3];
            let det = a11.mul(a22).sub(a12.mul(a21));
            let num_abs: i128 = if det.num < 0 {
                -(det.num as i128)
            } else {
                det.num as i128
            };
            let den_abs: i128 = if det.den < 0 {
                -(det.den as i128)
            } else {
                det.den as i128
            };
            if num_abs * 10_000_000_000 < den_abs {
                return Err(MatrixError::SingularMatrix);
            }
            let mut out: Vec<Frac> = Vec::new();
            out.push(a22.div(det));
            out.push(a12.neg().div(det));
            out.push(a21.neg().div(det));
            out.push(a11.div(det));
            return Ok(Matrix { rows: 2, cols: 2, data: out });
        }
        Err(MatrixError::InvalidOperation)
    }

    /// Matrix addition `C = A + B`.
    ///
    /// Succeeds exactly when the shapes match; the result takes `A`'s shape
    /// and zips the two buffers element-wise, truncating to the shorter one
    /// (a no-op for well-formed operands).  The precondition asks only that
    /// the element sums stay in `i64` range.
    pub fn matrix_add(a: &Matrix, b: &Matrix) -> (r: Result<Matrix, MatrixError>)
        requires
            same_shape(*a, *b) ==> add_in_range(*a, *b),
        ensures
            match r {
                Ok(c) => same_shape(*a, *b) && is_sum_of(*a, *b, c),
                Err(e) => !same_shape(*a, *b) && e == MatrixError::DimensionMismatch,
            },
    {
        if a.rows != b.rows || a.cols != b.cols {
            return Err(MatrixError::DimensionMismatch);
        }
        let len: usize = if a.data.len() <= b.data.len() {
            a.data.len()
        } else {
            b.data.len()
        };
        let mut out: Vec<Frac> = Vec::new();
        let mut t: usize = 0;
        while t < len
            invariant
                same_shape(*a, *b),
                add_in_range(*a, *b),
                len == zip_len(*a, *b),
                len <= a.data@.len(),
                len <= b.data@.len(),
                t <= len,
                out@.len() == t,
                forall|s: int| 0 <= s < t ==> (#[trigger] out@[s])@ == sum_entry(*a, *b, s),
            decreases len - t,
        {
            proof {
                assert(rat_fits(sum_entry(*a, *b, t as int)));
            }
            out.push(a.data[t].add(b.data[t]));
            t += 1;
        }
        Ok(Matrix { rows: a.rows, cols: a.cols, data: out })
    }

    /// Matrix subtraction `C = A - B`.
    ///
    /// Succeeds exactly when the shapes match; the result takes `A`'s shape
    /// and zips the two buffers element-wise, truncating to the shorter one
    /// (a no-op for well-formed operands).  The precondition asks only that
    /// the element differences stay in `i64` range.
    pub fn matrix_subtract(a: &Matrix, b: &Matrix) -> (r: Result<Matrix, MatrixError>)
        requires
            same_shape(*a, *b) ==> sub_in_range(*a, *b),
        ensures
            match r {
                Ok(c) => same_shape(*a, *b) && is_difference_of(*a, *b, c),
                Err(e) => !same_shape(*a, *b) && e == MatrixError::DimensionMismatch,
            },
    {
        if a.rows != b.rows || a.cols != b.cols {
            return Err(MatrixError::DimensionMismatch);
        }
        let len: usize = if a.data.len() <= b.data.len() {
            a.data.len()
        } else {
            b.data.len()
        };
        let mut out: Vec<Frac> = Vec::new();
        let mut t: usize = 0;
        while t < len
            invariant
                same_shape(*a, *b),
                sub_in_range(*a, *b),
                len == zip_len(*a, *b),
                len <= a.data@.len(),
                len <= b.data@.len(),
                t <= len,
                out@.len() == t,
                forall|s: int| 0 <= s < t ==> (#[trigger] out@[s])@ == diff_entry(*a, *b, s),
            decreases len - t,
        {
            proof {
                assert(rat_fits(diff_entry(*a, *b, t as int)));
            }
            out.push(a.data[t].sub(b.data[t]));
            t += 1;
        }
        Ok(Matrix { rows: a.rows, cols: a.cols, data: out })
    }

    /// Dispatch a decoded operation request to the engine and wrap the
    /// outcome in a response envelope.
    ///
    /// A request with no matrix A short-circuits before the engine runs,
    /// with the fixed message `Missing matrix A` and zero elapsed time.
    /// Otherwise the operation tag is matched case-sensitively against the
    /// five known names; an unknown tag fails with `InvalidOperation`, and a
    /// binary operation whose matrix B is absent fails with
    /// `DimensionMismatch`.  A successful engine call yields status
    /// `completed`, the result matrix, an empty error message and the
    /// advisory wall time; a failed one yields status `failed`, no result,
    /// zero time and the error's message.  The task id is threaded through
    /// unchanged in every case.
    pub fn process_request(req: MatrixComputeRequest) -> (resp: MatrixComputeResponse)
        requires
            request_in_range(req),
        ensures
            resp.task_id@ == req.task_id@,
            match req.matrix_a {
                None => failed_response(resp, req, "Missing matrix A"@),
                Some(a) => {
                    &&& (req.operation@ == "multiply"@ ==> match req.matrix_b {
                        None => failed_response(
                            resp,
                            req,
                            error_text(MatrixError::DimensionMismatch),
                        ),
                        Some(b) => {
                            &&& (a.cols == b.rows ==> completed_response(resp, req)
                                && (resp.result matches Some(c) && is_product_of(a, b, c)))
                            &&& (a.cols != b.rows ==> failed_response(
                                resp,
                                req,
                                error_text(MatrixError::DimensionMismatch),
                            ))
                        },
                    })
                    &&& (req.operation@ == "transpose"@ ==> completed_response(resp, req)
                        && (resp.result matches Some(t) && is_transpose_of(a, t)))
                    &&& (req.operation@ == "inverse"@ ==> {
                        &&& (a.rows != a.cols ==> failed_response(
                            resp,
                            req,
                            error_text(MatrixError::NonSquareMatrix),
                        ))
                        &&& (a.rows == a.cols && a.rows == 2 && near_singular(det2(a))
                            ==> failed_response(resp, req, error_text(MatrixError::SingularMatrix)))
                        &&& (a.rows == a.cols && a.rows == 2 && !near_singular(det2(a))
                            ==> completed_response(resp, req) && (resp.result matches Some(m)
                            && is_inverse_of(a, m)))
                        &&& (a.rows == a.cols && a.rows != 2 ==> failed_response(
                            resp,
                            req,
                            error_text(MatrixError::InvalidOperation),
                        ))
                    })
                    &&& (req.operation@ == "add"@ ==> match req.matrix_b {
                        None => failed_response(
                            resp,
                            req,
                            error_text(MatrixError::DimensionMismatch),
                        ),
                        Some(b) => {
                            &&& (same_shape(a, b) ==> completed_response(resp, req)
                                && (resp.result matches Some(c) && is_sum_of(a, b, c)))
                            &&& (!same_shape(a, b) ==> failed_response(
                                resp,
                                req,
                                error_text(MatrixError::DimensionMismatch),
                            ))
                        },
                    })
                    &&& (req.operation@ == "subtract"@ ==> match req.matrix_b {
                        None => failed_response(
                            resp,
                            req,
                            error_text(MatrixError::DimensionMismatch),
                        ),
                        Some(b) => {
                            &&& (same_shape(a, b) ==> completed_response(resp, req)
                                && (resp.result matches Some(c) && is_difference_of(a, b, c)))
                            &&& (!same_shape(a, b) ==> failed_response(
                                resp,
                                req,
                                error_text(MatrixError::DimensionMismatch),
                            ))
                        },
                    })
                    &&& (!known_operation(req.operation@) ==> failed_response(
                        resp,
                        req,
                        error_text(MatrixError::InvalidOperation),
                    ))
                },
            },
    {
        let start = std::time::Instant::now();
        proof {
            reveal_strlit("multiply");
            reveal_strlit("transpose");
            reveal_strlit("inverse");
            reveal_strlit("add");
            reveal_strlit("subtract");
            assert("multiply"@.len() == 8);
            assert("transpose"@.len() == 9);
            assert("inverse"@.len() == 7);
            assert("add"@.len() == 3);
            assert("subtract"@.len() == 8);
            assert("multiply"@[0] == 'm');
            assert("subtract"@[0] == 's');
            assert("multiply"@ != "subtract"@);
        }
        if req.matrix_a.is_none() {
            return MatrixComputeResponse {
                result: None,
                task_id: req.task_id,
                status: String::from_str("failed"),
                execution_time_ms: 0,
                error_message: String::from_str("Missing matrix A"),
            };
        }
        let matrix_a = req.matrix_a.as_ref().unwrap();
        let result: Result<Matrix, MatrixError> = if str_matches(&req.operation, "multiply") {
            if req.matrix_b.is_none() {
                Err(MatrixError::DimensionMismatch)
            } else {
                let matrix_b = req.matrix_b.as_ref().unwrap();
                Self::matrix_multiply(matrix_a, matrix_b)
            }
        } else if str_matches(&req.operation, "transpose") {
            Self::matrix_transpose(matrix_a)
        } else if str_matches(&req.operation, "inverse") {
            Self::matrix_inverse(matrix_a)
        } else if str_matches(&req.operation, "add") {
            if req.matrix_b.is_none() {
                Err(MatrixError::DimensionMismatch)
            } else {
                let matrix_b = req.matrix_b.as_ref().unwrap();
                Self::matrix_add(matrix_a, matrix_b)
            }
        } else if str_matches(&req.operation, "subtract") {
            if req.matrix_b.is_none() {
                Err(MatrixError::DimensionMismatch)
            } else {
                let matrix_b = req.matrix_b.as_ref().unwrap();
                Self::matrix_subtract(matrix_a, matrix_b)
            }
        } else {
            Err(MatrixError::InvalidOperation)
        };
        match result {
            Ok(result_matrix) => {
                let elapsed = start.elapsed();
                let millis: u128 = elapsed.as_millis();
                MatrixComputeResponse {
                    result: Some(result_matrix),
                    task_id: req.task_id,
                    status: String::from_str("completed"),
                    execution_time_ms: #[verifier::truncate] (millis as i64),
                    error_message: String::new(),
                }
            },
            Err(err) => MatrixComputeResponse {
                result: None,
                task_id: req.task_id,
                status: String::from_str("failed"),
                execution_time_ms: 0,
                error_message: err.message(),
            },
        }
    }
}

/// A decoded operation request: a case-sensitive operation tag, the first
/// operand, an optional second operand (required for multiply, add and
/// subtract, ignored otherwise), and an opaque task id for correlation.
pub struct MatrixComputeRequest {
    pub operation: String,
    pub matrix_a: Option<Matrix>,
    pub matrix_b: Option<Matrix>,
    pub task_id: String,
}

/// The response envelope: the result matrix when the operation succeeded,
/// the request's task id, a `completed`/`failed` status, the advisory wall
/// time of a successful engine call in milliseconds, and the failure
/// message (empty on success).
pub struct MatrixComputeResponse {
    pub result: Option<Matrix>,
    pub task_id: String,
    pub status: String,
    pub execution_time_ms: i64,
    pub error_message: String,
}

/// The five recognized operation tags.
pub open spec fn known_operation(op: Seq<char>) -> bool {
    op == "multiply"@ || op == "transpose"@ || op == "inverse"@ || op == "add"@ || op
        == "subtract"@
}

/// `resp` reports failure for `req`: no result, status `failed`, zero
/// elapsed time, and the given message.
pub open spec fn failed_response(
    resp: MatrixComputeResponse,
    req: MatrixComputeRequest,
    msg: Seq<char>,
) -> bool {
    &&& resp.result is None
    &&& resp.task_id@ == req.task_id@
    &&& resp.status@ == "failed"@
    &&& resp.execution_time_ms == 0
    &&& resp.error_message@ == msg
}

/// `resp` reports success for `req`: a result is present, the status is
/// `completed` and the error message is empty.  The elapsed time is
/// advisory and unconstrained.
pub open spec fn completed_response(resp: MatrixComputeResponse, req: MatrixComputeRequest) -> bool {
    &&& resp.result is Some
    &&& resp.task_id@ == req.task_id@
    &&& resp.status@ == "completed"@
    &&& resp.error_message@ == Seq::<char>::empty()
}

/// The machine limits under which a request's arithmetic is defined: for
/// whichever operation the request names, the engine preconditions of that
/// operation.  Shape mismatches and error paths need nothing.
pub open spec fn request_in_range(req: MatrixComputeRequest) -> bool {
    match req.matrix_a {
        None => true,
        Some(a) => {
            &&& (req.operation@ == "multiply"@ ==> match req.matrix_b {
                None => true,
                Some(b) => a.cols == b.rows ==> multiply_in_range(a, b) && multiply_dims_fit(a, b),
            })
            &&& (req.operation@ == "transpose"@ ==> a.rows * a.cols <= a.data@.len())
            &&& (req.operation@ == "inverse"@ ==> (a.rows == a.cols && a.rows == 2
                ==> a.data@.len() >= 4 && inverse_in_range(a)))
            &&& (req.operation@ == "add"@ ==> match req.matrix_b {
                None => true,
                Some(b) => same_shape(a, b) ==> add_in_range(a, b),
            })
            &&& (req.operation@ == "subtract"@ ==> match req.matrix_b {
                None => true,
                Some(b) => same_shape(a, b) ==> sub_in_range(a, b),
            })
        },
    }
}

/// Case-sensitive comparison of an operation tag against a known name.
fn str_matches(s: &String, tag: &str) -> (r: bool)
    ensures
        r == (s@ == tag@),
{
    let t = String::from_str(tag);
    *s == t
}

} // verus!
