//! Exact rational numbers.
//!
//! Velocity multipliers, tempo values, zoom factors and normalized color
//! channels are quotients of the integers found in the beatmap text or chosen
//! by the user. They are carried exactly as `num / den` pairs; the rendering
//! host converts them to floating point only at the GPU boundary.

use vstd::prelude::*;

verus! {

/// An exact rational number `num / den`. Well-formed values keep `den > 0`;
/// the sign lives in `num`.
#[derive(Clone, Copy, Debug, PartialEq, Eq, Structural)]
pub struct Frac {
    pub num: i128,
    pub den: i128,
}

impl Frac {
    /// Well-formedness: the denominator is positive.
    pub open spec fn wf(self) -> bool {
        self.den > 0
    }

    /// Both fractions denote the same rational value.
    pub open spec fn same_value(self, other: Frac) -> bool {
        self.num * other.den == other.num * self.den
    }

    /// The fraction denotes exactly the integer `n`.
    pub open spec fn is_int(self, n: int) -> bool {
        self.num == n * self.den
    }

    /// The exact product, as computed by `times`.
    pub open spec fn spec_mul(a: Frac, b: Frac) -> Frac {
        Frac { num: (a.num * b.num) as i128, den: (a.den * b.den) as i128 }
    }

    /// The exact quotient with the sign normalized into the numerator, as
    /// computed by `div_by`.
    pub open spec fn spec_div(a: Frac, b: Frac) -> Frac {
        if b.num >= 0 {
            Frac { num: (a.num * b.den) as i128, den: (a.den * b.num) as i128 }
        } else {
            Frac { num: -(a.num * b.den) as i128, den: -(a.den * b.num) as i128 }
        }
    }

    pub fn new(num: i128, den: i128) -> (r: Frac)
        requires
            den > 0,
        ensures
            r == (Frac { num, den }),
            r.wf(),
    {
        Frac { num, den }
    }

    pub fn from_int(n: i128) -> (r: Frac)
        ensures
            r == (Frac { num: n, den: 1 }),
            r.wf(),
            r.is_int(n as int),
    {
        Frac { num: n, den: 1 }
    }

    pub fn one() -> (r: Frac)
        ensures
            r == (Frac { num: 1, den: 1 }),
            r.wf(),
            r.is_int(1),
    {
        Frac { num: 1, den: 1 }
    }

    /// Exact product; the caller must show the field products stay in range.
    pub fn times(self, other: Frac) -> (r: Frac)
        requires
            self.wf(),
            other.wf(),
            i128::MIN <= self.num * other.num <= i128::MAX,
            self.den * other.den <= i128::MAX,
        ensures
            r.num == self.num * other.num,
            r.den == self.den * other.den,
            r == Frac::spec_mul(self, other),
            r.wf(),
    {
        proof {
            assert(self.den * other.den > 0) by (nonlinear_arith)
                requires
                    self.den > 0,
                    other.den > 0,
            ;
        }
        Frac { num: self.num * other.num, den: self.den * other.den }
    }

    /// Exact quotient `self / other`, with the sign normalized into the
    /// numerator. The divisor must be nonzero and the field products in range.
    pub fn div_by(self, other: Frac) -> (r: Frac)
        requires
            self.wf(),
            other.wf(),
            other.num != 0,
            -i128::MAX <= self.num * other.den <= i128::MAX,
            -i128::MAX <= self.den * other.num <= i128::MAX,
        ensures
            other.num > 0 ==> r.num == self.num * other.den && r.den == self.den * other.num,
            other.num < 0 ==> r.num == -(self.num * other.den) && r.den == -(self.den * other.num),
            r == Frac::spec_div(self, other),
            r.wf(),
    {
        let n = self.num * other.den;
        let d = self.den * other.num;
        proof {
            assert(other.num > 0 ==> self.den * other.num > 0) by (nonlinear_arith)
                requires
                    self.den > 0,
            ;
            assert(other.num < 0 ==> self.den * other.num < 0) by (nonlinear_arith)
                requires
                    self.den > 0,
            ;
        }
        if d < 0 {
            Frac { num: -n, den: -d }
        } else {
            Frac { num: n, den: d }
        }
    }

    /// Whether both fractions denote the same rational value.
    pub fn eq_rational(self, other: Frac) -> (r: bool)
        requires
            i128::MIN <= self.num * other.den <= i128::MAX,
            i128::MIN <= other.num * self.den <= i128::MAX,
        ensures
            r == self.same_value(other),
    {
        self.num * other.den == other.num * self.den
    }

    /// Exact negation.
    pub fn negate(self) -> (r: Frac)
        requires
            self.num > i128::MIN,
        ensures
            r.num == -self.num,
            r.den == self.den,
            self.wf() ==> r.wf(),
    {
        Frac { num: -self.num, den: self.den }
    }
}

/// A product of bounded factors is bounded by the product of the bounds.
pub proof fn lemma_mul_bound(a: int, b: int, aa: int, bb: int)
    requires
        -aa <= a <= aa,
        -bb <= b <= bb,
        0 <= aa,
        0 <= bb,
    ensures
        -(aa * bb) <= a * b <= aa * bb,
{
    assert(-(aa * bb) <= a * b <= aa * bb) by (nonlinear_arith)
        requires
            -aa <= a <= aa,
            -bb <= b <= bb,
            0 <= aa,
            0 <= bb,
    ;
}

} // verus!
