//! Exact rational values as integer pairs.
//!
//! A `Frac` holds a rational number `num / den` with a positive denominator.
//! Ray parameters and hit distances are quotients of fixed-point
//! coordinates, so they are carried exactly as such pairs; comparisons are
//! decided by cross-multiplication in 128-bit arithmetic, which cannot
//! overflow for 64-bit fields.

use vstd::prelude::*;

verus! {

/// An exact rational number `num / den`; well-formed values keep `den > 0`.
#[derive(Clone, Copy, Debug)]
pub struct Frac {
    pub num: i64,
    pub den: i64,
}

impl Frac {
    /// The mathematical pair this value stands for.
    pub open spec fn pair(self) -> (int, int) {
        (self.num as int, self.den as int)
    }

    pub open spec fn wf(self) -> bool {
        self.den > 0
    }
}

/// `a <= b` for rationals `a.0 / a.1` and `b.0 / b.1` with positive denominators.
pub open spec fn rle(a: (int, int), b: (int, int)) -> bool {
    a.0 * b.1 <= b.0 * a.1
}

/// `a < b` for rationals with positive denominators.
pub open spec fn rlt(a: (int, int), b: (int, int)) -> bool {
    a.0 * b.1 < b.0 * a.1
}

/// `a == b` as rationals.
pub open spec fn req(a: (int, int), b: (int, int)) -> bool {
    a.0 * b.1 == b.0 * a.1
}

/// `a >= 0` for a rational with positive denominator.
pub open spec fn rnonneg(a: (int, int)) -> bool {
    a.0 >= 0
}

/// The product of two values within `i64` range stays within `i128` range.
pub proof fn lemma_i64_mul_fits(a: int, b: int)
    by (nonlinear_arith)
    requires
        -0x8000_0000_0000_0000 <= a <= 0x7fff_ffff_ffff_ffff,
        -0x8000_0000_0000_0000 <= b <= 0x7fff_ffff_ffff_ffff,
    ensures
        i128::MIN <= a * b <= i128::MAX,
{
}

/// Transitivity of the rational order, on raw cross-products.
pub proof fn lemma_rle_trans_raw(an: int, ad: int, bn: int, bd: int, cn: int, cd: int)
    by (nonlinear_arith)
    requires
        ad > 0,
        bd > 0,
        cd > 0,
        an * bd <= bn * ad,
        bn * cd <= cn * bd,
    ensures
        an * cd <= cn * ad,
{
}

impl Frac {
    /// Decides `self <= other` exactly by cross-multiplication.
    pub fn le(&self, other: &Frac) -> (r: bool)
        requires
            self.wf(),
            other.wf(),
        ensures
            r == rle(self.pair(), other.pair()),
    {
        proof {
            lemma_i64_mul_fits(self.num as int, other.den as int);
            lemma_i64_mul_fits(other.num as int, self.den as int);
        }
        (self.num as i128) * (other.den as i128) <= (other.num as i128) * (self.den as i128)
    }

    /// Decides `self < other` exactly by cross-multiplication.
    pub fn lt(&self, other: &Frac) -> (r: bool)
        requires
            self.wf(),
            other.wf(),
        ensures
            r == rlt(self.pair(), other.pair()),
    {
        proof {
            lemma_i64_mul_fits(self.num as int, other.den as int);
            lemma_i64_mul_fits(other.num as int, self.den as int);
        }
        (self.num as i128) * (other.den as i128) < (other.num as i128) * (self.den as i128)
    }
}

} // verus!
