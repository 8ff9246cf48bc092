//! Exact rational scalars.
//!
//! A scalar is a fraction `num / den` of 128-bit integers with a positive
//! denominator. Two scalars denote the same rational number when they agree
//! under cross multiplication; `q_eqv` is that relation on the mathematical
//! model `Q`, and every executable operation is specified exactly against
//! the model.

use vstd::prelude::*;

verus! {

/// Mathematical model of a scalar: the rational number `n / d`.
pub ghost struct Q {
    pub n: int,
    pub d: int,
}

/// A well-formed scalar keeps its denominator positive.
pub open spec fn q_wf(a: Q) -> bool {
    a.d > 0
}

/// `a` and `b` denote the same rational number.
pub open spec fn q_eqv(a: Q, b: Q) -> bool {
    a.n * b.d == b.n * a.d
}

pub open spec fn q_zero() -> Q {
    Q { n: 0, d: 1 }
}

pub open spec fn q_one() -> Q {
    Q { n: 1, d: 1 }
}

/// The fraction `n / d` with the sign carried by the numerator.
pub open spec fn q_sign(n: int, d: int) -> Q {
    if d < 0 {
        Q { n: -n, d: -d }
    } else {
        Q { n: n, d: d }
    }
}

pub open spec fn q_add(a: Q, b: Q) -> Q {
    Q { n: a.n * b.d + b.n * a.d, d: a.d * b.d }
}

pub open spec fn q_sub(a: Q, b: Q) -> Q {
    Q { n: a.n * b.d - b.n * a.d, d: a.d * b.d }
}

pub open spec fn q_mul(a: Q, b: Q) -> Q {
    Q { n: a.n * b.n, d: a.d * b.d }
}

pub open spec fn q_neg(a: Q) -> Q {
    Q { n: -a.n, d: a.d }
}

/// Exact division; the divisor's sign moves into the numerator so that a
/// well-formed divisor with nonzero numerator yields a well-formed result.
pub open spec fn q_div(a: Q, b: Q) -> Q {
    q_sign(a.n * b.d, a.d * b.n)
}

/// The reciprocal `1 / a`.
pub open spec fn q_inv(a: Q) -> Q {
    q_sign(a.d, a.n)
}

/// `x` stays clear of the edges of the 128-bit signed range, so that both
/// `x` and `-x` are machine-representable.
pub open spec fn fits(x: int) -> bool {
    -(i128::MAX as int) <= x <= i128::MAX as int
}

/// The scalar lies in the ball of radius `b`.
pub open spec fn q_ball(a: Q, b: int) -> bool {
    &&& -b <= a.n <= b
    &&& 0 < a.d <= b
}

/// Every intermediate product of an exact addition is machine-representable.
pub open spec fn q_add_fits(a: Q, b: Q) -> bool {
    &&& fits(a.n * b.d)
    &&& fits(b.n * a.d)
    &&& fits(a.n * b.d + b.n * a.d)
    &&& fits(a.n * b.d - b.n * a.d)
    &&& fits(a.d * b.d)
}

pub open spec fn q_mul_fits(a: Q, b: Q) -> bool {
    &&& fits(a.n * b.n)
    &&& fits(a.d * b.d)
}

pub open spec fn q_div_fits(a: Q, b: Q) -> bool {
    &&& fits(a.n * b.d)
    &&& fits(a.d * b.n)
}

/// The cross products deciding whether two scalars are equal fit.
pub open spec fn q_eqv_fits(a: Q, b: Q) -> bool {
    &&& fits(a.n * b.d)
    &&& fits(b.n * a.d)
}

/// An exact scalar: the rational number `num / den`.
#[derive(Clone, Copy, Debug)]
pub struct Rat {
    pub num: i128,
    pub den: i128,
}

impl View for Rat {
    type V = Q;

    open spec fn view(&self) -> Q {
        Q { n: self.num as int, d: self.den as int }
    }
}

impl Rat {
    /// The fraction `num / den`; a negative denominator's sign moves into
    /// the numerator.
    pub fn new(num: i128, den: i128) -> (r: Rat)
        requires
            den != 0,
            fits(num as int),
            fits(den as int),
        ensures
            r@ == q_sign(num as int, den as int),
            q_wf(r@),
    {
        if den < 0 {
            Rat { num: -num, den: -den }
        } else {
            Rat { num, den }
        }
    }

    /// The integer `n` as a scalar.
    pub fn from_int(n: i128) -> (r: Rat)
        ensures
            r@ == (Q { n: n as int, d: 1 }),
            q_wf(r@),
    {
        Rat { num: n, den: 1 }
    }

    pub fn zero() -> (r: Rat)
        ensures
            r@ == q_zero(),
            q_wf(r@),
    {
        Rat { num: 0, den: 1 }
    }

    pub fn one() -> (r: Rat)
        ensures
            r@ == q_one(),
            q_wf(r@),
    {
        Rat { num: 1, den: 1 }
    }

    pub fn add(self, other: Rat) -> (r: Rat)
        requires
            q_wf(self@),
            q_wf(other@),
            q_add_fits(self@, other@),
        ensures
            r@ == q_add(self@, other@),
            q_wf(r@),
    {
        proof {
            assert(self@.d * other@.d > 0) by (nonlinear_arith)
                requires
                    self@.d > 0,
                    other@.d > 0,
            ;
        }
        Rat { num: self.num * other.den + other.num * self.den, den: self.den * other.den }
    }

    pub fn sub(self, other: Rat) -> (r: Rat)
        requires
            q_wf(self@),
            q_wf(other@),
            q_add_fits(self@, other@),
        ensures
            r@ == q_sub(self@, other@),
            q_wf(r@),
    {
        proof {
            assert(self@.d * other@.d > 0) by (nonlinear_arith)
                requires
                    self@.d > 0,
                    other@.d > 0,
            ;
        }
        Rat { num: self.num * other.den - other.num * self.den, den: self.den * other.den }
    }

    pub fn mul(self, other: Rat) -> (r: Rat)
        requires
            q_wf(self@),
            q_wf(other@),
            q_mul_fits(self@, other@),
        ensures
            r@ == q_mul(self@, other@),
            q_wf(r@),
    {
        proof {
            assert(self@.d * other@.d > 0) by (nonlinear_arith)
                requires
                    self@.d > 0,
                    other@.d > 0,
            ;
        }
        Rat { num: self.num * other.num, den: self.den * other.den }
    }

    pub fn neg(self) -> (r: Rat)
        requires
            q_wf(self@),
            fits(self@.n),
        ensures
            r@ == q_neg(self@),
            q_wf(r@),
    {
        Rat { num: -self.num, den: self.den }
    }

    pub fn div(self, other: Rat) -> (r: Rat)
        requires
            q_wf(self@),
            q_wf(other@),
            other@.n != 0,
            q_div_fits(self@, other@),
        ensures
            r@ == q_div(self@, other@),
            q_wf(r@),
    {
        let n = self.num * other.den;
        let d = self.den * other.num;
        proof {
            assert(d != 0 && (d < 0 ==> -(d as int) > 0)) by (nonlinear_arith)
                requires
                    self@.d > 0,
                    other@.n != 0,
                    d == self@.d * other@.n,
            ;
        }
        if d < 0 {
            Rat { num: -n, den: -d }
        } else {
            Rat { num: n, den: d }
        }
    }

    /// Whether the two scalars denote the same rational number.
    pub fn eqv(self, other: Rat) -> (r: bool)
        requires
            q_wf(self@),
            q_wf(other@),
            q_eqv_fits(self@, other@),
        ensures
            r == q_eqv(self@, other@),
    {
        self.num * other.den == other.num * self.den
    }

    /// Whether the scalar denotes zero.
    pub fn is_zero(self) -> (r: bool)
        requires
            q_wf(self@),
        ensures
            r == q_eqv(self@, q_zero()),
    {
        self.num == 0
    }
}

} // verus!
