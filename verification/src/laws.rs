//! General laws of the engine, stated over the same specification
//! vocabulary that the operations' contracts use.

use vstd::prelude::*;

use vstd::arithmetic::div_mod::lemma_fundamental_div_mod;

use crate::matrix_ops::{
    cell_prefix, det2, entry, flat, is_inverse_of, is_product_of, is_transpose_of, lemma_flat_lt,
    mul_term, near_singular, product_cell, well_formed, Matrix,
};
use crate::rational::{rat_add, rat_div, rat_eq, rat_mul, rat_neg, rat_one, rat_zero, Rat};

verus! {

/// On well-formed operands every summand of a product cell is the plain
/// entry product `A[i,k] * B[k,j]`: the defensive zero branch of
/// [`mul_term`] is never taken.
pub proof fn lemma_mul_term_wf(a: Matrix, b: Matrix, i: int, j: int, k: int)
    requires
        well_formed(a),
        well_formed(b),
        a.cols == b.rows,
        0 <= i < a.rows,
        0 <= j < b.cols,
        0 <= k < a.cols,
    ensures
        mul_term(a, b, i, j, k) == rat_mul(entry(a, i, k), entry(b, k, j)),
{
    lemma_flat_lt(i, k, a.rows as int, a.cols as int);
    lemma_flat_lt(k, j, b.rows as int, b.cols as int);
}

/// Transposing twice gives back the original matrix: for any well-formed
/// `a`, if `t1` is the transpose of `a` and `t2` the transpose of `t1`,
/// then `t2` has `a`'s shape and exactly `a`'s buffer.
pub proof fn lemma_transpose_involution(a: Matrix, t1: Matrix, t2: Matrix)
    requires
        well_formed(a),
        is_transpose_of(a, t1),
        is_transpose_of(t1, t2),
    ensures
        t2.rows == a.rows,
        t2.cols == a.cols,
        t2.data@ == a.data@,
{
    let c = a.cols as int;
    let r = a.rows as int;
    assert(r * c == c * r) by (nonlinear_arith);
    assert(t2.data@.len() == a.data@.len());
    assert forall|f: int| 0 <= f < a.data@.len() implies t2.data@[f] == a.data@[f] by {
        if c == 0 {
            assert(a.data@.len() == r * 0);
            assert(r * 0 == 0) by (nonlinear_arith);
        } else {
            let qi = f / c;
            let rj = f % c;
            lemma_fundamental_div_mod(f, c);
            assert(0 <= qi < r && 0 <= rj < c) by (nonlinear_arith)
                requires
                    c > 0,
                    0 <= f,
                    f < r * c,
                    f == c * qi + rj,
                    qi == f / c,
                    rj == f % c,
            ;
            assert(qi * c == c * qi) by (nonlinear_arith);
            assert(flat(qi, c, rj) == f);
            assert(t2.data@[flat(qi, t2.cols as int, rj)] == t1.data@[flat(rj, t1.cols as int, qi)]);
            assert(t1.data@[flat(rj, t1.cols as int, qi)] == a.data@[flat(qi, a.cols as int, rj)]);
        }
    }
    assert(t2.data@ =~= a.data@);
}

/// The components of a two-summand product cell, with the leading zero of
/// the accumulation absorbed.
proof fn lemma_cell_components(m0: Rat, m1: Rat, cell: Rat)
    requires
        cell == rat_add(rat_add(rat_zero(), m0), m1),
    ensures
        cell.n == m0.n * m1.d + m1.n * m0.d,
        cell.d == m0.d * m1.d,
{
    let z = rat_add(rat_zero(), m0);
    assert(z.n == m0.n);
    assert(z.d == m0.d);
    assert(cell.n == z.n * m1.d + m1.n * z.d);
    assert(cell.n == m0.n * m1.d + m1.n * m0.d) by (nonlinear_arith)
        requires
            cell.n == z.n * m1.d + m1.n * z.d,
            z.n == m0.n,
            z.d == m0.d,
    ;
    assert(cell.d == z.d * m1.d);
    assert(cell.d == m0.d * m1.d) by (nonlinear_arith)
        requires
            cell.d == z.d * m1.d,
            z.d == m0.d,
    ;
}

/// A diagonal cell whose summands have been rearranged into multiples of
/// `dd * dn` equals its denominator: the determinant cancels.
proof fn lemma_diag_identity(x: int, y: int, dn: int, dd: int, cn: int, cd: int)
    by (nonlinear_arith)
    requires
        dn == x - y,
        cn == x * (dd * dn) - y * (dd * dn),
        cd == dd * (dn * dn),
    ensures
        cn == cd,
{
}

/// Multiplying a well-formed, non-singular 2×2 matrix by its closed-form
/// inverse yields the identity, exactly: each cell of the product denotes 1
/// on the diagonal and 0 off it.
pub proof fn lemma_inverse_round_trip(a: Matrix, inv: Matrix, prod: Matrix)
    requires
        well_formed(a),
        a.rows == 2,
        a.cols == 2,
        a.data@[0]@.d != 0,
        a.data@[1]@.d != 0,
        a.data@[2]@.d != 0,
        a.data@[3]@.d != 0,
        !near_singular(det2(a)),
        is_inverse_of(a, inv),
        is_product_of(a, inv, prod),
    ensures
        forall|i: int, j: int|
            0 <= i < 2 && 0 <= j < 2 ==> rat_eq(
                #[trigger] entry(prod, i, j),
                if i == j {
                    rat_one()
                } else {
                    rat_zero()
                },
            ),
{
    let n0 = a.data@[0]@.n;
    let d0 = a.data@[0]@.d;
    let n1 = a.data@[1]@.n;
    let d1 = a.data@[1]@.d;
    let n2 = a.data@[2]@.n;
    let d2 = a.data@[2]@.d;
    let n3 = a.data@[3]@.n;
    let d3 = a.data@[3]@.d;
    let dt = det2(a);
    let dn = dt.n;
    let dd = dt.d;
    assert(dn == (n0 * n3) * (d1 * d2) - (n1 * n2) * (d0 * d3));
    assert(dd == (d0 * d3) * (d1 * d2));
    assert(a.data@.len() == 4);
    assert forall|i: int, j: int|
        0 <= i < 2 && 0 <= j < 2 implies rat_eq(
        #[trigger] entry(prod, i, j),
        if i == j {
            rat_one()
        } else {
            rat_zero()
        },
    ) by {
        assert(entry(prod, i, j) == product_cell(a, inv, i, j));
        let t0 = mul_term(a, inv, i, j, 0);
        let t1 = mul_term(a, inv, i, j, 1);
        let cell = product_cell(a, inv, i, j);
        assert(cell_prefix(a, inv, i, j, 0) == rat_zero());
        assert(cell_prefix(a, inv, i, j, 1) == rat_add(rat_zero(), t0));
        assert(cell == rat_add(rat_add(rat_zero(), t0), t1));
        assert(t0 == rat_mul(a.data@[flat(i, 2, 0)]@, inv.data@[flat(0, 2, j)]@));
        assert(t1 == rat_mul(a.data@[flat(i, 2, 1)]@, inv.data@[flat(1, 2, j)]@));
        lemma_cell_components(t0, t1, cell);
        if i == 0 && j == 0 {
            assert(t0 == rat_mul(a.data@[0]@, rat_div(a.data@[3]@, dt)));
            assert(t1 == rat_mul(a.data@[1]@, rat_div(rat_neg(a.data@[2]@), dt)));
            assert(t0.n == (n0 * n3) * dd) by (nonlinear_arith)
                requires
                    t0.n == n0 * (n3 * dd),
            ;
            assert(t1.d == (d1 * d2) * dn) by (nonlinear_arith)
                requires
                    t1.d == d1 * (d2 * dn),
            ;
            assert(t0.n * t1.d == ((n0 * n3) * (d1 * d2)) * (dd * dn)) by (nonlinear_arith)
                requires
                    t0.n == (n0 * n3) * dd,
                    t1.d == (d1 * d2) * dn,
            ;
            assert(t1.n == -((n1 * n2) * dd)) by (nonlinear_arith)
                requires
                    t1.n == n1 * ((-n2) * dd),
            ;
            assert(t0.d == (d0 * d3) * dn) by (nonlinear_arith)
                requires
                    t0.d == d0 * (d3 * dn),
            ;
            assert(t1.n * t0.d == -(((n1 * n2) * (d0 * d3)) * (dd * dn))) by (nonlinear_arith)
                requires
                    t1.n == -((n1 * n2) * dd),
                    t0.d == (d0 * d3) * dn,
            ;
            assert(cell.d == ((d0 * d3) * (d1 * d2)) * (dn * dn)) by (nonlinear_arith)
                requires
                    cell.d == t0.d * t1.d,
                    t0.d == (d0 * d3) * dn,
                    t1.d == (d1 * d2) * dn,
            ;
            assert(cell.d == dd * (dn * dn)) by (nonlinear_arith)
                requires
                    cell.d == ((d0 * d3) * (d1 * d2)) * (dn * dn),
                    dd == (d0 * d3) * (d1 * d2),
            ;
            lemma_diag_identity(
                (n0 * n3) * (d1 * d2),
                (n1 * n2) * (d0 * d3),
                dn,
                dd,
                cell.n,
                cell.d,
            );
        } else if i == 0 && j == 1 {
            assert(t0 == rat_mul(a.data@[0]@, rat_div(rat_neg(a.data@[1]@), dt)));
            assert(t1 == rat_mul(a.data@[1]@, rat_div(a.data@[0]@, dt)));
            assert(cell.n == 0) by (nonlinear_arith)
                requires
                    cell.n == t0.n * t1.d + t1.n * t0.d,
                    t0.n == n0 * ((-n1) * dd),
                    t0.d == d0 * (d1 * dn),
                    t1.n == n1 * (n0 * dd),
                    t1.d == d1 * (d0 * dn),
            ;
        } else if i == 1 && j == 0 {
            assert(t0 == rat_mul(a.data@[2]@, rat_div(a.data@[3]@, dt)));
            assert(t1 == rat_mul(a.data@[3]@, rat_div(rat_neg(a.data@[2]@), dt)));
            assert(cell.n == 0) by (nonlinear_arith)
                requires
                    cell.n == t0.n * t1.d + t1.n * t0.d,
                    t0.n == n2 * (n3 * dd),
                    t0.d == d2 * (d3 * dn),
                    t1.n == n3 * ((-n2) * dd),
                    t1.d == d3 * (d2 * dn),
            ;
        } else {
            assert(t0 == rat_mul(a.data@[2]@, rat_div(rat_neg(a.data@[1]@), dt)));
            assert(t1 == rat_mul(a.data@[3]@, rat_div(a.data@[0]@, dt)));
            assert(t1.n == (n0 * n3) * dd) by (nonlinear_arith)
                requires
                    t1.n == n3 * (n0 * dd),
            ;
            assert(t0.d == (d1 * d2) * dn) by (nonlinear_arith)
                requires
                    t0.d == d2 * (d1 * dn),
            ;
            assert(t1.n * t0.d == ((n0 * n3) * (d1 * d2)) * (dd * dn)) by (nonlinear_arith)
                requires
                    t1.n == (n0 * n3) * dd,
                    t0.d == (d1 * d2) * dn,
            ;
            assert(t0.n == -((n1 * n2) * dd)) by (nonlinear_arith)
                requires
                    t0.n == n2 * ((-n1) * dd),
            ;
            assert(t1.d == (d0 * d3) * dn) by (nonlinear_arith)
                requires
                    t1.d == d3 * (d0 * dn),
            ;
            assert(t0.n * t1.d == -(((n1 * n2) * (d0 * d3)) * (dd * dn))) by (nonlinear_arith)
                requires
                    t0.n == -((n1 * n2) * dd),
                    t1.d == (d0 * d3) * dn,
            ;
            assert(cell.d == ((d0 * d3) * (d1 * d2)) * (dn * dn)) by (nonlinear_arith)
                requires
                    cell.d == t0.d * t1.d,
                    t0.d == (d1 * d2) * dn,
                    t1.d == (d0 * d3) * dn,
            ;
            assert(cell.d == dd * (dn * dn)) by (nonlinear_arith)
                requires
                    cell.d == ((d0 * d3) * (d1 * d2)) * (dn * dn),
                    dd == (d0 * d3) * (d1 * d2),
            ;
            lemma_diag_identity(
                (n0 * n3) * (d1 * d2),
                (n1 * n2) * (d0 * d3),
                dn,
                dd,
                cell.n,
                cell.d,
            );
        }
        if i == j {
            assert(rat_one().n == 1 && rat_one().d == 1);
            assert(cell.n * rat_one().d == rat_one().n * cell.d);
            assert(rat_eq(entry(prod, i, j), rat_one()));
        } else {
            assert(rat_eq(cell, rat_zero()));
            assert(rat_eq(entry(prod, i, j), rat_zero()));
        }
    }
}

} // verus!
