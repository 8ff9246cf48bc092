//! Exact 3D rotors.
//!
//! A rotor is a unit quaternion `(s, x, y, z) / den` whose numerators
//! satisfy `s^2 + x^2 + y^2 + z^2 == den^2`, so composition, reversal and
//! application to a vector are exact. Unit quaternions with integer
//! components exist in abundance (for example `(3, 4, 0, 0) / 5`), and the
//! unit invariant is preserved exactly by composition.

use vstd::prelude::*;
use crate::rat::fits;
use crate::vec3::{QV, Vec3, qv_wf};

verus! {

/// Mathematical model of a rotor: the quaternion `(s, x, y, z) / d`.
pub ghost struct QR {
    pub s: int,
    pub x: int,
    pub y: int,
    pub z: int,
    pub d: int,
}

pub open spec fn qr_norm_sq(r: QR) -> int {
    r.s * r.s + r.x * r.x + r.y * r.y + r.z * r.z
}

/// A well-formed rotor has a positive denominator and unit norm.
pub open spec fn qr_wf(r: QR) -> bool {
    &&& r.d > 0
    &&& qr_norm_sq(r) == r.d * r.d
}

/// `a` and `b` denote the same quaternion, componentwise under cross
/// multiplication.
pub open spec fn qr_eqv(a: QR, b: QR) -> bool {
    &&& a.s * b.d == b.s * a.d
    &&& a.x * b.d == b.x * a.d
    &&& a.y * b.d == b.y * a.d
    &&& a.z * b.d == b.z * a.d
}

pub open spec fn qr_id() -> QR {
    QR { s: 1, x: 0, y: 0, z: 0, d: 1 }
}

/// The Hamilton product `a * b`.
pub open spec fn qr_mul(a: QR, b: QR) -> QR {
    QR {
        s: a.s * b.s - a.x * b.x - a.y * b.y - a.z * b.z,
        x: a.s * b.x + a.x * b.s + a.y * b.z - a.z * b.y,
        y: a.s * b.y - a.x * b.z + a.y * b.s + a.z * b.x,
        z: a.s * b.z + a.x * b.y - a.y * b.x + a.z * b.s,
        d: a.d * b.d,
    }
}

/// The algebraic inverse of a unit rotor: its conjugate.
pub open spec fn qr_rev(r: QR) -> QR {
    QR { s: r.s, x: -r.x, y: -r.y, z: -r.z, d: r.d }
}

/// Entries of the rotation matrix a rotor denotes, scaled by `d * d`.
pub open spec fn qr_m00(r: QR) -> int {
    r.s * r.s + r.x * r.x - r.y * r.y - r.z * r.z
}

pub open spec fn qr_m01(r: QR) -> int {
    2 * (r.x * r.y - r.s * r.z)
}

pub open spec fn qr_m02(r: QR) -> int {
    2 * (r.x * r.z + r.s * r.y)
}

pub open spec fn qr_m10(r: QR) -> int {
    2 * (r.x * r.y + r.s * r.z)
}

pub open spec fn qr_m11(r: QR) -> int {
    r.s * r.s - r.x * r.x + r.y * r.y - r.z * r.z
}

pub open spec fn qr_m12(r: QR) -> int {
    2 * (r.y * r.z - r.s * r.x)
}

pub open spec fn qr_m20(r: QR) -> int {
    2 * (r.x * r.z - r.s * r.y)
}

pub open spec fn qr_m21(r: QR) -> int {
    2 * (r.y * r.z + r.s * r.x)
}

pub open spec fn qr_m22(r: QR) -> int {
    r.s * r.s - r.x * r.x - r.y * r.y + r.z * r.z
}

/// The rotor applied to a vector: the quaternion sandwich `r v r~`,
/// written out as the rotation matrix acting on `v`.
pub open spec fn qr_apply(r: QR, v: QV) -> QV {
    QV {
        x: qr_m00(r) * v.x + qr_m01(r) * v.y + qr_m02(r) * v.z,
        y: qr_m10(r) * v.x + qr_m11(r) * v.y + qr_m12(r) * v.z,
        z: qr_m20(r) * v.x + qr_m21(r) * v.y + qr_m22(r) * v.z,
        d: r.d * r.d * v.d,
    }
}

/// Two integers grouped either way give the same product of four.
proof fn lemma_regroup(a: int, b: int, c: int, d: int)
    by (nonlinear_arith)
    ensures
        (a * b) * (c * d) == (a * d) * (c * b),
{
}

/// The complex norm is multiplicative.
proof fn lemma_c_norm_mul(ar: int, ai: int, br: int, bi: int)
    ensures
        (ar * br - ai * bi) * (ar * br - ai * bi) + (ar * bi + ai * br) * (ar * bi + ai * br)
            == (ar * ar + ai * ai) * (br * br + bi * bi),
{
    let p = ar * br;
    let q = ai * bi;
    let r = ar * bi;
    let t = ai * br;
    assert((p - q) * (p - q) == p * p - 2 * (p * q) + q * q) by (nonlinear_arith);
    assert((r + t) * (r + t) == r * r + 2 * (r * t) + t * t) by (nonlinear_arith);
    lemma_regroup(ar, br, ai, bi);
    assert(p * q == r * t);
    assert(p * p == (ar * ar) * (br * br)) by (nonlinear_arith)
        requires
            p == ar * br,
    ;
    assert(q * q == (ai * ai) * (bi * bi)) by (nonlinear_arith)
        requires
            q == ai * bi,
    ;
    assert(r * r == (ar * ar) * (bi * bi)) by (nonlinear_arith)
        requires
            r == ar * bi,
    ;
    assert(t * t == (ai * ai) * (br * br)) by (nonlinear_arith)
        requires
            t == ai * br,
    ;
    assert((ar * ar + ai * ai) * (br * br + bi * bi) == (ar * ar) * (br * br) + (ar * ar) * (bi
        * bi) + (ai * ai) * (br * br) + (ai * ai) * (bi * bi)) by (nonlinear_arith);
}

/// The quaternion norm is multiplicative: Euler's four-square identity,
/// here derived from the complex two-square identity by splitting each
/// quaternion into two complex halves.
pub proof fn lemma_qr_mul_norm(a: QR, b: QR)
    ensures
        qr_norm_sq(qr_mul(a, b)) == qr_norm_sq(a) * qr_norm_sq(b),
{
    let ur = a.s * b.s - a.x * b.x;
    let ui = a.s * b.x + a.x * b.s;
    let vr = a.y * b.y + a.z * b.z;
    let vi = a.z * b.y - a.y * b.z;
    let pr = a.s * b.y - a.x * b.z;
    let pi = a.s * b.z + a.x * b.y;
    let kr = a.y * b.s + a.z * b.x;
    let ki = a.z * b.s - a.y * b.x;
    lemma_c_norm_mul(a.s, a.x, b.s, b.x);
    lemma_c_norm_mul(a.y, a.z, b.y, -b.z);
    lemma_c_norm_mul(a.s, a.x, b.y, b.z);
    lemma_c_norm_mul(a.y, a.z, b.s, -b.x);
    assert(a.y * (-b.z) == -(a.y * b.z) && a.z * (-b.z) == -(a.z * b.z) && (-b.z) * (-b.z) == b.z
        * b.z) by (nonlinear_arith);
    assert(a.y * (-b.x) == -(a.y * b.x) && a.z * (-b.x) == -(a.z * b.x) && (-b.x) * (-b.x) == b.x
        * b.x) by (nonlinear_arith);
    assert(ur * vr == (a.s * b.s) * (a.y * b.y) + (a.s * b.s) * (a.z * b.z) - (a.x * b.x) * (a.y
        * b.y) - (a.x * b.x) * (a.z * b.z)) by (nonlinear_arith)
        requires
            ur == a.s * b.s - a.x * b.x,
            vr == a.y * b.y + a.z * b.z,
    ;
    assert(ui * vi == (a.s * b.x) * (a.z * b.y) - (a.s * b.x) * (a.y * b.z) + (a.x * b.s) * (a.z
        * b.y) - (a.x * b.s) * (a.y * b.z)) by (nonlinear_arith)
        requires
            ui == a.s * b.x + a.x * b.s,
            vi == a.z * b.y - a.y * b.z,
    ;
    assert(pr * kr == (a.s * b.y) * (a.y * b.s) + (a.s * b.y) * (a.z * b.x) - (a.x * b.z) * (a.y
        * b.s) - (a.x * b.z) * (a.z * b.x)) by (nonlinear_arith)
        requires
            pr == a.s * b.y - a.x * b.z,
            kr == a.y * b.s + a.z * b.x,
    ;
    assert(pi * ki == (a.s * b.z) * (a.z * b.s) - (a.s * b.z) * (a.y * b.x) + (a.x * b.y) * (a.z
        * b.s) - (a.x * b.y) * (a.y * b.x)) by (nonlinear_arith)
        requires
            pi == a.s * b.z + a.x * b.y,
            ki == a.z * b.s - a.y * b.x,
    ;
    lemma_regroup(a.s, b.s, a.y, b.y);
    lemma_regroup(a.s, b.s, a.z, b.z);
    lemma_regroup(a.x, b.x, a.y, b.y);
    lemma_regroup(a.x, b.x, a.z, b.z);
    lemma_regroup(a.s, b.x, a.z, b.y);
    lemma_regroup(a.s, b.x, a.y, b.z);
    lemma_regroup(a.x, b.s, a.z, b.y);
    lemma_regroup(a.x, b.s, a.y, b.z);
    assert(ur * vr + ui * vi == pr * kr + pi * ki);
    let m = qr_mul(a, b);
    assert(m.s == ur - vr && m.x == ui - vi && m.y == pr + kr && m.z == pi + ki);
    assert(m.s * m.s + m.x * m.x + m.y * m.y + m.z * m.z == (ur * ur + ui * ui) + (vr * vr + vi
        * vi) + (pr * pr + pi * pi) + (kr * kr + ki * ki) - 2 * (ur * vr + ui * vi) + 2 * (pr * kr
        + pi * ki)) by (nonlinear_arith)
        requires
            m.s == ur - vr,
            m.x == ui - vi,
            m.y == pr + kr,
            m.z == pi + ki,
    ;
    let na1 = a.s * a.s + a.x * a.x;
    let na2 = a.y * a.y + a.z * a.z;
    let nb1 = b.s * b.s + b.x * b.x;
    let nb2 = b.y * b.y + b.z * b.z;
    assert(na1 * nb1 + na2 * nb2 + na1 * nb2 + na2 * nb1 == (na1 + na2) * (nb1 + nb2))
        by (nonlinear_arith)
    ;
}

/// Composition preserves well-formedness.
pub proof fn lemma_qr_mul_wf(a: QR, b: QR)
    requires
        qr_wf(a),
        qr_wf(b),
    ensures
        qr_wf(qr_mul(a, b)),
        qr_mul(a, b).d == a.d * b.d,
{
    lemma_qr_mul_norm(a, b);
    assert(a.d * b.d > 0 && (a.d * a.d) * (b.d * b.d) == (a.d * b.d) * (a.d * b.d))
        by (nonlinear_arith)
        requires
            a.d > 0,
            b.d > 0,
    ;
}

/// Reversal preserves well-formedness.
pub proof fn lemma_qr_rev_wf(r: QR)
    requires
        qr_wf(r),
    ensures
        qr_wf(qr_rev(r)),
{
    assert((-r.x) * (-r.x) == r.x * r.x && (-r.y) * (-r.y) == r.y * r.y && (-r.z) * (-r.z) == r.z
        * r.z) by (nonlinear_arith);
}

/// Numerators and denominator small enough that composing two rotors or
/// applying one to a vector stays exact in 128-bit arithmetic.
pub open spec fn qr_small(r: QR) -> bool {
    &&& -0x4000_0000 <= r.s <= 0x4000_0000
    &&& -0x4000_0000 <= r.x <= 0x4000_0000
    &&& -0x4000_0000 <= r.y <= 0x4000_0000
    &&& -0x4000_0000 <= r.z <= 0x4000_0000
    &&& 0 < r.d <= 0x4000_0000
}

/// A vector ball small enough for a rotor application to stay exact.
pub open spec fn qv_ball(v: QV, b: int) -> bool {
    &&& -b <= v.x <= b
    &&& -b <= v.y <= b
    &&& -b <= v.z <= b
    &&& 0 < v.d <= b
}

/// Bounded factors give a bounded product.
pub proof fn lemma_mul_bound(a: int, b: int, ba: int, bb: int)
    by (nonlinear_arith)
    requires
        -ba <= a <= ba,
        -bb <= b <= bb,
        0 <= ba,
        0 <= bb,
    ensures
        -(ba * bb) <= a * b <= ba * bb,
{
}

/// An exact rotor: the unit quaternion `(s, x, y, z) / den`.
#[derive(Clone, Copy, Debug)]
pub struct Rotor3 {
    pub s: i128,
    pub x: i128,
    pub y: i128,
    pub z: i128,
    pub den: i128,
}

impl View for Rotor3 {
    type V = QR;

    open spec fn view(&self) -> QR {
        QR {
            s: self.s as int,
            x: self.x as int,
            y: self.y as int,
            z: self.z as int,
            d: self.den as int,
        }
    }
}

impl Rotor3 {
    pub fn identity() -> (r: Rotor3)
        ensures
            r@ == qr_id(),
            qr_wf(r@),
            qr_small(r@),
    {
        Rotor3 { s: 1, x: 0, y: 0, z: 0, den: 1 }
    }

    /// Builds the rotor `(s, x, y, z) / den`, checking that it is a unit
    /// quaternion; `None` when it is not.
    pub fn new(s: i128, x: i128, y: i128, z: i128, den: i128) -> (r: Option<Rotor3>)
        requires
            -0x4000_0000 <= s as int <= 0x4000_0000,
            -0x4000_0000 <= x as int <= 0x4000_0000,
            -0x4000_0000 <= y as int <= 0x4000_0000,
            -0x4000_0000 <= z as int <= 0x4000_0000,
            -0x4000_0000 <= den as int <= 0x4000_0000,
        ensures
            match r {
                Some(q) => {
                    &&& q@ == (QR {
                        s: s as int,
                        x: x as int,
                        y: y as int,
                        z: z as int,
                        d: den as int,
                    })
                    &&& qr_wf(q@)
                    &&& qr_small(q@)
                },
                None => !(den as int > 0 && qr_norm_sq(
                    QR { s: s as int, x: x as int, y: y as int, z: z as int, d: den as int },
                ) == den as int * den as int),
            },
    {
        proof {
            lemma_mul_bound(s as int, s as int, 0x4000_0000, 0x4000_0000);
            lemma_mul_bound(x as int, x as int, 0x4000_0000, 0x4000_0000);
            lemma_mul_bound(y as int, y as int, 0x4000_0000, 0x4000_0000);
            lemma_mul_bound(z as int, z as int, 0x4000_0000, 0x4000_0000);
            lemma_mul_bound(den as int, den as int, 0x4000_0000, 0x4000_0000);
        }
        if den > 0 && s * s + x * x + y * y + z * z == den * den {
            Some(Rotor3 { s, x, y, z, den })
        } else {
            None
        }
    }

    /// Reverses the rotor in place: the conjugate, which undoes the
    /// rotation.
    pub fn reverse(&mut self)
        requires
            qr_wf(old(self)@),
            qr_small(old(self)@),
        ensures
            final(self)@ == qr_rev(old(self)@),
            qr_wf(final(self)@),
            qr_small(final(self)@),
    {
        proof {
            lemma_qr_rev_wf(self@);
        }
        self.x = -self.x;
        self.y = -self.y;
        self.z = -self.z;
    }

    /// The reversed rotor, without mutating the receiver.
    pub fn reversed(self) -> (r: Rotor3)
        requires
            qr_wf(self@),
            qr_small(self@),
        ensures
            r@ == qr_rev(self@),
            qr_wf(r@),
            qr_small(r@),
    {
        let mut r = self;
        r.reverse();
        r
    }

    /// The Hamilton product `self * other`: the rotation that applies
    /// `other` first and `self` after it.
    pub fn mul(self, other: Rotor3) -> (r: Rotor3)
        requires
            qr_wf(self@),
            qr_wf(other@),
            qr_small(self@),
            qr_small(other@),
        ensures
            r@ == qr_mul(self@, other@),
            qr_wf(r@),
            r@.d == self@.d * other@.d,
    {
        proof {
            lemma_mul_bound(self@.s, other@.s, 0x4000_0000, 0x4000_0000);
            lemma_mul_bound(self@.s, other@.x, 0x4000_0000, 0x4000_0000);
            lemma_mul_bound(self@.s, other@.y, 0x4000_0000, 0x4000_0000);
            lemma_mul_bound(self@.s, other@.z, 0x4000_0000, 0x4000_0000);
            lemma_mul_bound(self@.x, other@.s, 0x4000_0000, 0x4000_0000);
            lemma_mul_bound(self@.x, other@.x, 0x4000_0000, 0x4000_0000);
            lemma_mul_bound(self@.x, other@.y, 0x4000_0000, 0x4000_0000);
            lemma_mul_bound(self@.x, other@.z, 0x4000_0000, 0x4000_0000);
            lemma_mul_bound(self@.y, other@.s, 0x4000_0000, 0x4000_0000);
            lemma_mul_bound(self@.y, other@.x, 0x4000_0000, 0x4000_0000);
            lemma_mul_bound(self@.y, other@.y, 0x4000_0000, 0x4000_0000);
            lemma_mul_bound(self@.y, other@.z, 0x4000_0000, 0x4000_0000);
            lemma_mul_bound(self@.z, other@.s, 0x4000_0000, 0x4000_0000);
            lemma_mul_bound(self@.z, other@.x, 0x4000_0000, 0x4000_0000);
            lemma_mul_bound(self@.z, other@.y, 0x4000_0000, 0x4000_0000);
            lemma_mul_bound(self@.z, other@.z, 0x4000_0000, 0x4000_0000);
            lemma_mul_bound(self@.d, other@.d, 0x4000_0000, 0x4000_0000);
            lemma_qr_mul_wf(self@, other@);
        }
        Rotor3 {
            s: self.s * other.s - self.x * other.x - self.y * other.y - self.z * other.z,
            x: self.s * other.x + self.x * other.s + self.y * other.z - self.z * other.y,
            y: self.s * other.y - self.x * other.z + self.y * other.s + self.z * other.x,
            z: self.s * other.z + self.x * other.y - self.y * other.x + self.z * other.s,
            den: self.den * other.den,
        }
    }

    /// Applies the rotor to a vector: the rotation it denotes, exactly.
    pub fn apply(self, v: Vec3) -> (r: Vec3)
        requires
            qr_wf(self@),
            qr_small(self@),
            qv_wf(v@),
            qv_ball(v@, 0x1000_0000_0000_0000),
        ensures
            r@ == qr_apply(self@, v@),
            qv_wf(r@),
    {
        proof {
            lemma_mul_bound(self@.s, self@.s, 0x4000_0000, 0x4000_0000);
            lemma_mul_bound(self@.s, self@.x, 0x4000_0000, 0x4000_0000);
            lemma_mul_bound(self@.s, self@.y, 0x4000_0000, 0x4000_0000);
            lemma_mul_bound(self@.s, self@.z, 0x4000_0000, 0x4000_0000);
            lemma_mul_bound(self@.x, self@.x, 0x4000_0000, 0x4000_0000);
            lemma_mul_bound(self@.x, self@.y, 0x4000_0000, 0x4000_0000);
            lemma_mul_bound(self@.x, self@.z, 0x4000_0000, 0x4000_0000);
            lemma_mul_bound(self@.y, self@.y, 0x4000_0000, 0x4000_0000);
            lemma_mul_bound(self@.y, self@.z, 0x4000_0000, 0x4000_0000);
            lemma_mul_bound(self@.z, self@.z, 0x4000_0000, 0x4000_0000);
            lemma_mul_bound(self@.d, self@.d, 0x4000_0000, 0x4000_0000);
        }
        let m00 = self.s * self.s + self.x * self.x - self.y * self.y - self.z * self.z;
        let m01 = 2 * (self.x * self.y - self.s * self.z);
        let m02 = 2 * (self.x * self.z + self.s * self.y);
        let m10 = 2 * (self.x * self.y + self.s * self.z);
        let m11 = self.s * self.s - self.x * self.x + self.y * self.y - self.z * self.z;
        let m12 = 2 * (self.y * self.z - self.s * self.x);
        let m20 = 2 * (self.x * self.z - self.s * self.y);
        let m21 = 2 * (self.y * self.z + self.s * self.x);
        let m22 = self.s * self.s - self.x * self.x - self.y * self.y + self.z * self.z;
        proof {
            lemma_mul_bound(m00 as int, v@.x, 0x8000_0000_0000_0000, 0x1000_0000_0000_0000);
            lemma_mul_bound(m01 as int, v@.y, 0x8000_0000_0000_0000, 0x1000_0000_0000_0000);
            lemma_mul_bound(m02 as int, v@.z, 0x8000_0000_0000_0000, 0x1000_0000_0000_0000);
            lemma_mul_bound(m10 as int, v@.x, 0x8000_0000_0000_0000, 0x1000_0000_0000_0000);
            lemma_mul_bound(m11 as int, v@.y, 0x8000_0000_0000_0000, 0x1000_0000_0000_0000);
            lemma_mul_bound(m12 as int, v@.z, 0x8000_0000_0000_0000, 0x1000_0000_0000_0000);
            lemma_mul_bound(m20 as int, v@.x, 0x8000_0000_0000_0000, 0x1000_0000_0000_0000);
            lemma_mul_bound(m21 as int, v@.y, 0x8000_0000_0000_0000, 0x1000_0000_0000_0000);
            lemma_mul_bound(m22 as int, v@.z, 0x8000_0000_0000_0000, 0x1000_0000_0000_0000);
            lemma_mul_bound(self@.d * self@.d, v@.d, 0x1000_0000_0000_0000, 0x1000_0000_0000_0000);
            assert(self@.d * self@.d * v@.d > 0) by (nonlinear_arith)
                requires
                    self@.d > 0,
                    v@.d > 0,
            ;
        }
        let den = self.den * self.den * v.den;
        Vec3 {
            x: m00 * v.x + m01 * v.y + m02 * v.z,
            y: m10 * v.x + m11 * v.y + m12 * v.z,
            z: m20 * v.x + m21 * v.y + m22 * v.z,
            den,
        }
    }
}

} // verus!
