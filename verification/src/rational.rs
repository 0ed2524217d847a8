//! Exact rational scalars.
//!
//! Matrix entries are fractions of two `i64` components, kept unreduced: an
//! arithmetic step either produces exactly the components of the textbook
//! formula, or is outside the machine's range and is excluded by a
//! precondition.  The specification-level value of a fraction is a [`Rat`],
//! the same pair over unbounded integers.

use vstd::prelude::*;

verus! {

/// The mathematical value of a fraction: an unreduced numerator/denominator
/// pair over unbounded integers.  Two `Rat`s denote the same rational number
/// when [`rat_eq`] holds; the executable code never reduces, so contracts can
/// pin results down to structural equality of the pair.
pub ghost struct Rat {
    pub n: int,
    pub d: int,
}

/// The rational zero, written 0/1.
pub open spec fn rat_zero() -> Rat {
    Rat { n: 0, d: 1 }
}

/// The rational one, written 1/1.
pub open spec fn rat_one() -> Rat {
    Rat { n: 1, d: 1 }
}

/// Unreduced sum: `a/b + c/d = (a*d + c*b) / (b*d)`.
pub open spec fn rat_add(a: Rat, b: Rat) -> Rat {
    Rat { n: a.n * b.d + b.n * a.d, d: a.d * b.d }
}

/// Unreduced difference: `a/b - c/d = (a*d - c*b) / (b*d)`.
pub open spec fn rat_sub(a: Rat, b: Rat) -> Rat {
    Rat { n: a.n * b.d - b.n * a.d, d: a.d * b.d }
}

/// Unreduced product: `(a/b) * (c/d) = (a*c) / (b*d)`.
pub open spec fn rat_mul(a: Rat, b: Rat) -> Rat {
    Rat { n: a.n * b.n, d: a.d * b.d }
}

/// Unreduced quotient: `(a/b) / (c/d) = (a*d) / (b*c)`.
pub open spec fn rat_div(a: Rat, b: Rat) -> Rat {
    Rat { n: a.n * b.d, d: a.d * b.n }
}

/// Negation: `-(a/b) = (-a)/b`.
pub open spec fn rat_neg(a: Rat) -> Rat {
    Rat { n: -a.n, d: a.d }
}

/// Equality of the denoted rational numbers, by cross-multiplication.
pub open spec fn rat_eq(a: Rat, b: Rat) -> bool {
    a.n * b.d == b.n * a.d
}

/// Whether an unbounded integer is representable as an `i64` component.
pub open spec fn in_i64(x: int) -> bool {
    i64::MIN <= x && x <= i64::MAX
}

/// Whether both components of a `Rat` are representable as `i64`, so that
/// the executable arithmetic below can produce it.
pub open spec fn rat_fits(a: Rat) -> bool {
    in_i64(a.n) && in_i64(a.d)
}

/// A product of two `i64`-range integers always fits in an `i128`.
proof fn lemma_i64_prod_in_i128(x: int, y: int) by (nonlinear_arith)
    requires
        in_i64(x),
        in_i64(y),
    ensures
        i128::MIN <= x * y <= i128::MAX,
{
}

/// An exact rational scalar: `num / den`, unreduced.  The denominator is not
/// forced to be nonzero or positive here; the operations below are defined
/// structurally on the components, and laws that need denoted values add
/// their own nonzero-denominator hypotheses.
#[derive(Clone, Copy, Debug, PartialEq, Eq, Structural)]
pub struct Frac {
    pub num: i64,
    pub den: i64,
}

impl View for Frac {
    type V = Rat;

    open spec fn view(&self) -> Rat {
        Rat { n: self.num as int, d: self.den as int }
    }
}

impl Frac {
    /// The fraction 0/1.
    pub fn zero() -> (r: Frac)
        ensures
            r@ == rat_zero(),
    {
        Frac { num: 0, den: 1 }
    }

    /// Exact sum, defined whenever the unreduced result fits in `i64`.
    pub fn add(self, other: Frac) -> (r: Frac)
        requires
            rat_fits(rat_add(self@, other@)),
        ensures
            r@ == rat_add(self@, other@),
    {
        proof {
            lemma_i64_prod_in_i128(self.num as int, other.den as int);
            lemma_i64_prod_in_i128(other.num as int, self.den as int);
        }
        let n: i128 = (self.num as i128) * (other.den as i128) + (other.num as i128) * (self.den as i128);
        let d: i128 = (self.den as i128) * (other.den as i128);
        Frac { num: n as i64, den: d as i64 }
    }

    /// Exact difference, defined whenever the unreduced result fits in `i64`.
    pub fn sub(self, other: Frac) -> (r: Frac)
        requires
            rat_fits(rat_sub(self@, other@)),
        ensures
            r@ == rat_sub(self@, other@),
    {
        proof {
            lemma_i64_prod_in_i128(self.num as int, other.den as int);
            lemma_i64_prod_in_i128(other.num as int, self.den as int);
        }
        let n: i128 = (self.num as i128) * (other.den as i128) - (other.num as i128) * (self.den as i128);
        let d: i128 = (self.den as i128) * (other.den as i128);
        Frac { num: n as i64, den: d as i64 }
    }

    /// Exact product, defined whenever the unreduced result fits in `i64`.
    pub fn mul(self, other: Frac) -> (r: Frac)
        requires
            rat_fits(rat_mul(self@, other@)),
        ensures
            r@ == rat_mul(self@, other@),
    {
        let n: i128 = (self.num as i128) * (other.num as i128);
        let d: i128 = (self.den as i128) * (other.den as i128);
        Frac { num: n as i64, den: d as i64 }
    }

    /// Exact quotient, defined whenever the unreduced result fits in `i64`.
    pub fn div(self, other: Frac) -> (r: Frac)
        requires
            rat_fits(rat_div(self@, other@)),
        ensures
            r@ == rat_div(self@, other@),
    {
        let n: i128 = (self.num as i128) * (other.den as i128);
        let d: i128 = (self.den as i128) * (other.num as i128);
        Frac { num: n as i64, den: d as i64 }
    }

    /// Exact negation, defined whenever the negated numerator fits in `i64`.
    pub fn neg(self) -> (r: Frac)
        requires
            rat_fits(rat_neg(self@)),
        ensures
            r@ == rat_neg(self@),
    {
        Frac { num: -self.num, den: self.den }
    }
}

} // verus!
