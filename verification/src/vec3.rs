//! Exact 3D vectors.
//!
//! A vector holds three integer numerators over one common positive
//! denominator, so sums, scalings, dot and cross products are exact. The
//! Euclidean norm exists as an exact scalar only when the sum of the squared
//! numerators is a perfect square; `mag` and `normalized` return `None`
//! otherwise.

use vstd::prelude::*;
use crate::rat::{Q, Rat, q_wf, fits};

verus! {

/// Mathematical model of a vector: `(x, y, z) / d`.
pub ghost struct QV {
    pub x: int,
    pub y: int,
    pub z: int,
    pub d: int,
}

pub open spec fn qv_wf(v: QV) -> bool {
    v.d > 0
}

/// `a` and `b` denote the same vector, componentwise under cross
/// multiplication.
pub open spec fn qv_eqv(a: QV, b: QV) -> bool {
    &&& a.x * b.d == b.x * a.d
    &&& a.y * b.d == b.y * a.d
    &&& a.z * b.d == b.z * a.d
}

pub open spec fn qv_zero() -> QV {
    QV { x: 0, y: 0, z: 0, d: 1 }
}

pub open spec fn qv_add(a: QV, b: QV) -> QV {
    QV {
        x: a.x * b.d + b.x * a.d,
        y: a.y * b.d + b.y * a.d,
        z: a.z * b.d + b.z * a.d,
        d: a.d * b.d,
    }
}

pub open spec fn qv_sub(a: QV, b: QV) -> QV {
    QV {
        x: a.x * b.d - b.x * a.d,
        y: a.y * b.d - b.y * a.d,
        z: a.z * b.d - b.z * a.d,
        d: a.d * b.d,
    }
}

pub open spec fn qv_neg(a: QV) -> QV {
    QV { x: -a.x, y: -a.y, z: -a.z, d: a.d }
}

/// The vector scaled by the scalar `s`.
pub open spec fn qv_scale(s: Q, a: QV) -> QV {
    QV { x: s.n * a.x, y: s.n * a.y, z: s.n * a.z, d: s.d * a.d }
}

pub open spec fn qv_dot(a: QV, b: QV) -> Q {
    Q { n: a.x * b.x + a.y * b.y + a.z * b.z, d: a.d * b.d }
}

pub open spec fn qv_cross(a: QV, b: QV) -> QV {
    QV {
        x: a.y * b.z - a.z * b.y,
        y: a.z * b.x - a.x * b.z,
        z: a.x * b.y - a.y * b.x,
        d: a.d * b.d,
    }
}

/// The sum of the squared numerators, whose square root decides whether the
/// vector has an exact norm.
pub open spec fn qv_norm_sq_num(a: QV) -> int {
    a.x * a.x + a.y * a.y + a.z * a.z
}

pub open spec fn qv_mag_sq(a: QV) -> Q {
    Q { n: qv_norm_sq_num(a), d: a.d * a.d }
}

pub open spec fn qv_add_fits(a: QV, b: QV) -> bool {
    &&& fits(a.x * b.d)
    &&& fits(b.x * a.d)
    &&& fits(a.y * b.d)
    &&& fits(b.y * a.d)
    &&& fits(a.z * b.d)
    &&& fits(b.z * a.d)
    &&& fits(a.x * b.d + b.x * a.d)
    &&& fits(a.y * b.d + b.y * a.d)
    &&& fits(a.z * b.d + b.z * a.d)
    &&& fits(a.x * b.d - b.x * a.d)
    &&& fits(a.y * b.d - b.y * a.d)
    &&& fits(a.z * b.d - b.z * a.d)
    &&& fits(a.d * b.d)
}

pub open spec fn qv_scale_fits(s: Q, a: QV) -> bool {
    &&& fits(s.n * a.x)
    &&& fits(s.n * a.y)
    &&& fits(s.n * a.z)
    &&& fits(s.d * a.d)
}

pub open spec fn qv_dot_fits(a: QV, b: QV) -> bool {
    &&& fits(a.x * b.x)
    &&& fits(a.y * b.y)
    &&& fits(a.z * b.z)
    &&& fits(a.x * b.x + a.y * b.y)
    &&& fits(a.x * b.x + a.y * b.y + a.z * b.z)
    &&& fits(a.d * b.d)
}

pub open spec fn qv_cross_fits(a: QV, b: QV) -> bool {
    &&& fits(a.y * b.z)
    &&& fits(a.z * b.y)
    &&& fits(a.z * b.x)
    &&& fits(a.x * b.z)
    &&& fits(a.x * b.y)
    &&& fits(a.y * b.x)
    &&& fits(a.y * b.z - a.z * b.y)
    &&& fits(a.z * b.x - a.x * b.z)
    &&& fits(a.x * b.y - a.y * b.x)
    &&& fits(a.d * b.d)
}

/// The floor of the square root of `n`.
///
/// Binary search keeps every square it computes within the 128-bit range.
pub fn isqrt(n: i128) -> (r: i128)
    requires
        0 <= n,
    ensures
        0 <= r,
        r * r <= n,
        n < (r + 1) * (r + 1),
{
    if n == 0 {
        return 0;
    }
    let mut lo: i128 = 0;
    // One more than the floor of the square root of i128::MAX, so its
    // square exceeds every admissible n while every candidate below it
    // still squares within range.
    let mut hi: i128 = 13_043_817_825_332_782_213;
    proof {
        assert(n < hi as int * hi as int) by (nonlinear_arith)
            requires
                n <= i128::MAX,
                hi == 13_043_817_825_332_782_213,
        ;
    }
    while hi - lo > 1
        invariant
            0 <= lo < hi <= 13_043_817_825_332_782_213,
            lo * lo <= n,
            n < hi * hi,
            n <= i128::MAX,
        decreases hi - lo,
    {
        let mid = lo + (hi - lo) / 2;
        assert(lo < mid < hi);
        proof {
            assert(mid * mid <= i128::MAX) by (nonlinear_arith)
                requires
                    0 <= mid as int,
                    mid as int <= 13_043_817_825_332_782_212,
            ;
        }
        if mid * mid <= n {
            lo = mid;
        } else {
            hi = mid;
        }
    }
    lo
}

/// No integer squares to `n` when `r` is the floor of its square root and
/// `r * r` misses `n`.
proof fn lemma_no_square_at(n: int, r: int, s: int)
    requires
        0 <= r,
        r * r <= n,
        n < (r + 1) * (r + 1),
        r * r != n,
    ensures
        s * s != n,
{
    if s >= r + 1 {
        assert(s * s >= (r + 1) * (r + 1)) by (nonlinear_arith)
            requires
                1 <= r + 1 <= s,
        ;
    } else if s <= -(r + 1) {
        assert(s * s >= (r + 1) * (r + 1)) by (nonlinear_arith)
            requires
                1 <= r + 1 <= -s,
        ;
    } else {
        assert(s * s <= r * r) by (nonlinear_arith)
            requires
                -r <= s <= r,
        ;
    }
}

/// A nonnegative integer whose square stays below `k * k` stays below `k`.
pub proof fn lemma_sqrt_le(c: int, k: int)
    by (nonlinear_arith)
    requires
        0 <= c,
        0 <= k,
        c * c <= k * k,
    ensures
        c <= k,
{
}

/// An exact 3D vector: `(x, y, z) / den`.
#[derive(Clone, Copy, Debug)]
pub struct Vec3 {
    pub x: i128,
    pub y: i128,
    pub z: i128,
    pub den: i128,
}

impl View for Vec3 {
    type V = QV;

    open spec fn view(&self) -> QV {
        QV { x: self.x as int, y: self.y as int, z: self.z as int, d: self.den as int }
    }
}

impl Vec3 {
    /// The vector `(x, y, z) / den`; a negative denominator's sign moves
    /// into the numerators.
    pub fn new(x: i128, y: i128, z: i128, den: i128) -> (r: Vec3)
        requires
            den != 0,
            fits(x as int),
            fits(y as int),
            fits(z as int),
            fits(den as int),
        ensures
            qv_wf(r@),
            qv_eqv(r@, QV { x: x as int, y: y as int, z: z as int, d: den as int }),
            r@.d == if den < 0 { -(den as int) } else { den as int },
    {
        if den < 0 {
            let r = Vec3 { x: -x, y: -y, z: -z, den: -den };
            proof {
                assert(qv_eqv(r@, QV { x: x as int, y: y as int, z: z as int, d: den as int }))
                    by (nonlinear_arith)
                    requires
                        r@.x == -(x as int),
                        r@.y == -(y as int),
                        r@.z == -(z as int),
                        r@.d == -(den as int),
                ;
            }
            r
        } else {
            Vec3 { x, y, z, den }
        }
    }

    pub fn zero() -> (r: Vec3)
        ensures
            r@ == qv_zero(),
            qv_wf(r@),
    {
        Vec3 { x: 0, y: 0, z: 0, den: 1 }
    }

    pub fn add(self, other: Vec3) -> (r: Vec3)
        requires
            qv_wf(self@),
            qv_wf(other@),
            qv_add_fits(self@, other@),
        ensures
            r@ == qv_add(self@, other@),
            qv_wf(r@),
    {
        proof {
            assert(self@.d * other@.d > 0) by (nonlinear_arith)
                requires
                    self@.d > 0,
                    other@.d > 0,
            ;
        }
        Vec3 {
            x: self.x * other.den + other.x * self.den,
            y: self.y * other.den + other.y * self.den,
            z: self.z * other.den + other.z * self.den,
            den: self.den * other.den,
        }
    }

    pub fn sub(self, other: Vec3) -> (r: Vec3)
        requires
            qv_wf(self@),
            qv_wf(other@),
            qv_add_fits(self@, other@),
        ensures
            r@ == qv_sub(self@, other@),
            qv_wf(r@),
    {
        proof {
            assert(self@.d * other@.d > 0) by (nonlinear_arith)
                requires
                    self@.d > 0,
                    other@.d > 0,
            ;
        }
        Vec3 {
            x: self.x * other.den - other.x * self.den,
            y: self.y * other.den - other.y * self.den,
            z: self.z * other.den - other.z * self.den,
            den: self.den * other.den,
        }
    }

    pub fn neg(self) -> (r: Vec3)
        requires
            qv_wf(self@),
            fits(self@.x),
            fits(self@.y),
            fits(self@.z),
        ensures
            r@ == qv_neg(self@),
            qv_wf(r@),
    {
        Vec3 { x: -self.x, y: -self.y, z: -self.z, den: self.den }
    }

    /// The vector scaled by the scalar `s`.
    pub fn scale(self, s: Rat) -> (r: Vec3)
        requires
            qv_wf(self@),
            q_wf(s@),
            qv_scale_fits(s@, self@),
        ensures
            r@ == qv_scale(s@, self@),
            qv_wf(r@),
    {
        proof {
            assert(s@.d * self@.d > 0) by (nonlinear_arith)
                requires
                    s@.d > 0,
                    self@.d > 0,
            ;
        }
        Vec3 { x: s.num * self.x, y: s.num * self.y, z: s.num * self.z, den: s.den * self.den }
    }

    pub fn dot(self, other: Vec3) -> (r: Rat)
        requires
            qv_wf(self@),
            qv_wf(other@),
            qv_dot_fits(self@, other@),
        ensures
            r@ == qv_dot(self@, other@),
            q_wf(r@),
    {
        proof {
            assert(self@.d * other@.d > 0) by (nonlinear_arith)
                requires
                    self@.d > 0,
                    other@.d > 0,
            ;
        }
        Rat {
            num: self.x * other.x + self.y * other.y + self.z * other.z,
            den: self.den * other.den,
        }
    }

    pub fn cross(self, other: Vec3) -> (r: Vec3)
        requires
            qv_wf(self@),
            qv_wf(other@),
            qv_cross_fits(self@, other@),
        ensures
            r@ == qv_cross(self@, other@),
            qv_wf(r@),
    {
        proof {
            assert(self@.d * other@.d > 0) by (nonlinear_arith)
                requires
                    self@.d > 0,
                    other@.d > 0,
            ;
        }
        Vec3 {
            x: self.y * other.z - self.z * other.y,
            y: self.z * other.x - self.x * other.z,
            z: self.x * other.y - self.y * other.x,
            den: self.den * other.den,
        }
    }

    /// The squared Euclidean norm, which is always an exact scalar.
    pub fn mag_sq(self) -> (r: Rat)
        requires
            qv_wf(self@),
            qv_dot_fits(self@, self@),
        ensures
            r@ == qv_mag_sq(self@),
            q_wf(r@),
    {
        self.dot(self)
    }

    /// The Euclidean norm, exact when the sum of the squared numerators is
    /// a perfect square; `None` otherwise.
    pub fn mag(self) -> (r: Option<Rat>)
        requires
            qv_wf(self@),
            qv_dot_fits(self@, self@),
        ensures
            match r {
                Some(m) => {
                    &&& q_wf(m@)
                    &&& m@.d == self@.d
                    &&& m@.n >= 0
                    &&& m@.n * m@.n == qv_norm_sq_num(self@)
                },
                None => forall|s: int| #[trigger] (s * s) != qv_norm_sq_num(self@),
            },
    {
        let sum = self.x * self.x + self.y * self.y + self.z * self.z;
        proof {
            assert(sum as int >= 0) by (nonlinear_arith)
                requires
                    sum == self@.x * self@.x + self@.y * self@.y + self@.z * self@.z,
            ;
        }
        let root = isqrt(sum);
        if root * root == sum {
            Some(Rat { num: root, den: self.den })
        } else {
            proof {
                assert forall|s: int| #[trigger] (s * s) != qv_norm_sq_num(self@) by {
                    lemma_no_square_at(sum as int, root as int, s);
                }
            }
            None
        }
    }

    /// The unit vector with this direction, exact when the norm is an exact
    /// nonzero scalar; `None` for the zero vector or an irrational norm.
    pub fn normalized(self) -> (r: Option<Vec3>)
        requires
            qv_wf(self@),
            qv_dot_fits(self@, self@),
        ensures
            match r {
                Some(u) => {
                    &&& qv_wf(u@)
                    &&& u@.x == self@.x
                    &&& u@.y == self@.y
                    &&& u@.z == self@.z
                    &&& u@.d * u@.d == qv_norm_sq_num(self@)
                },
                None => forall|s: int|
                    s > 0 ==> #[trigger] (s * s) != qv_norm_sq_num(self@),
            },
    {
        let sum = self.x * self.x + self.y * self.y + self.z * self.z;
        proof {
            assert(sum as int >= 0) by (nonlinear_arith)
                requires
                    sum == self@.x * self@.x + self@.y * self@.y + self@.z * self@.z,
            ;
        }
        let root = isqrt(sum);
        if root > 0 && root * root == sum {
            Some(Vec3 { x: self.x, y: self.y, z: self.z, den: root })
        } else if root == 0 {
            // The zero vector has no direction.
            proof {
                assert((root as int + 1) * (root as int + 1) == 1) by (nonlinear_arith)
                    requires
                        root as int == 0,
                ;
                assert forall|s: int| s > 0 implies #[trigger] (s * s)
                    != qv_norm_sq_num(self@) by {
                    assert(s * s > 0) by (nonlinear_arith)
                        requires
                            s > 0,
                    ;
                }
            }
            None
        } else {
            proof {
                assert forall|s: int| s > 0 implies #[trigger] (s * s)
                    != qv_norm_sq_num(self@) by {
                    lemma_no_square_at(sum as int, root as int, s);
                }
            }
            None
        }
    }

    /// Whether the two vectors denote the same point, componentwise.
    pub fn eqv(self, other: Vec3) -> (r: bool)
        requires
            qv_wf(self@),
            qv_wf(other@),
            fits(self@.x * other@.d),
            fits(other@.x * self@.d),
            fits(self@.y * other@.d),
            fits(other@.y * self@.d),
            fits(self@.z * other@.d),
            fits(other@.z * self@.d),
        ensures
            r == qv_eqv(self@, other@),
    {
        self.x * other.den == other.x * self.den && self.y * other.den == other.y * self.den
            && self.z * other.den == other.z * self.den
    }
}

} // verus!
