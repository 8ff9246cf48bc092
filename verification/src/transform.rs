//! Composable rigid-body and similarity transforms.
//!
//! An isometry is a rotation followed by a translation, the map
//! `x -> rotation * x + translation`. A similarity adds a uniform scale,
//! the map `x -> scale * (rotation * x) + translation`. Both are exact
//! value types over rational vectors and unit rotors; composition,
//! inversion and application follow the formulas stated on each operation.

use vstd::prelude::*;
use crate::rat::{Q, Rat, q_wf, q_ball, q_one, q_eqv, q_mul, q_inv};
use crate::vec3::{QV, Vec3, qv_wf, qv_eqv, qv_zero, qv_add, qv_neg, qv_scale, qv_add_fits};
use crate::rotor3::{QR, Rotor3, qr_wf, qr_eqv, qr_id, qr_mul, qr_rev, qr_apply, qr_small, qv_ball, lemma_mul_bound};
use crate::matrix::{Mat4, qm_wf, qm_mul, qm_from_translation, qm_rotor_homogeneous};

verus! {

/// Mathematical model of an isometry: translation `t` after rotation `r`.
pub ghost struct QIso {
    pub t: QV,
    pub r: QR,
}

pub open spec fn qiso_wf(i: QIso) -> bool {
    &&& qv_wf(i.t)
    &&& qr_wf(i.r)
}

pub open spec fn qiso_id() -> QIso {
    QIso { t: qv_zero(), r: qr_id() }
}

/// The isometry applied to a vector: rotate, then translate.
pub open spec fn qiso_apply(i: QIso, v: QV) -> QV {
    qv_add(qr_apply(i.r, v), i.t)
}

/// The composition `a * b`: applying it equals applying `b`, then `a`.
pub open spec fn qiso_compose(a: QIso, b: QIso) -> QIso {
    QIso { t: qiso_apply(a, b.t), r: qr_mul(a.r, b.r) }
}

/// The inverse map: the reversed rotation, and the reversed rotation
/// applied to the negated translation.
pub open spec fn qiso_inv(i: QIso) -> QIso {
    QIso { t: qr_apply(qr_rev(i.r), qv_neg(i.t)), r: qr_rev(i.r) }
}

/// Two isometries denote the same map.
pub open spec fn qiso_eqv(a: QIso, b: QIso) -> bool {
    &&& qv_eqv(a.t, b.t)
    &&& qr_eqv(a.r, b.r)
}

/// Mathematical model of a similarity: scale, then rotation, then
/// translation.
pub ghost struct QSim {
    pub t: QV,
    pub r: QR,
    pub s: Q,
}

pub open spec fn qsim_wf(m: QSim) -> bool {
    &&& qv_wf(m.t)
    &&& qr_wf(m.r)
    &&& q_wf(m.s)
}

pub open spec fn qsim_id() -> QSim {
    QSim { t: qv_zero(), r: qr_id(), s: q_one() }
}

/// The similarity applied to a vector: rotate, scale, then translate.
pub open spec fn qsim_apply(m: QSim, v: QV) -> QV {
    qv_add(qv_scale(m.s, qr_apply(m.r, v)), m.t)
}

pub open spec fn qsim_compose(a: QSim, b: QSim) -> QSim {
    QSim { t: qsim_apply(a, b.t), r: qr_mul(a.r, b.r), s: q_mul(a.s, b.s) }
}

/// The inverse map as the source formulas give it: the translation is
/// rebuilt from the reversed rotation alone, without the scale.
pub open spec fn qsim_inv(m: QSim) -> QSim {
    QSim { t: qr_apply(qr_rev(m.r), qv_neg(m.t)), r: qr_rev(m.r), s: q_inv(m.s) }
}

pub open spec fn qsim_eqv(a: QSim, b: QSim) -> bool {
    &&& qv_eqv(a.t, b.t)
    &&& qr_eqv(a.r, b.r)
    &&& q_eqv(a.s, b.s)
}

/// Identity laws: composing with the identity isometry on either side
/// leaves any isometry unchanged as a map.
pub proof fn lemma_isometry_identity(i: QIso)
    requires
        qiso_wf(i),
    ensures
        qiso_eqv(qiso_compose(qiso_id(), i), i),
        qiso_eqv(qiso_compose(i, qiso_id()), i),
{
    assert(qr_mul(qr_id(), i.r) == i.r);
    assert(qr_apply(qr_id(), i.t) == i.t) by (nonlinear_arith);
    let w = qr_apply(i.r, qv_zero());
    assert(w.x == 0 && w.y == 0 && w.z == 0);
    let d = w.d;
    let t = i.t;
    assert((t.x * d) * t.d == t.x * (d * t.d)) by (nonlinear_arith);
    assert((t.y * d) * t.d == t.y * (d * t.d)) by (nonlinear_arith);
    assert((t.z * d) * t.d == t.z * (d * t.d)) by (nonlinear_arith);
}

/// Identity laws for similarities.
pub proof fn lemma_similarity_identity(m: QSim)
    requires
        qsim_wf(m),
    ensures
        qsim_eqv(qsim_compose(qsim_id(), m), m),
        qsim_eqv(qsim_compose(m, qsim_id()), m),
{
    assert(qr_mul(qr_id(), m.r) == m.r);
    assert(qr_apply(qr_id(), m.t) == m.t) by (nonlinear_arith);
    assert(qv_scale(q_one(), qr_apply(qr_id(), m.t)) == qr_apply(qr_id(), m.t))
        by (nonlinear_arith);
    let w0 = qr_apply(m.r, qv_zero());
    assert(w0.x == 0 && w0.y == 0 && w0.z == 0);
    let w = qv_scale(m.s, w0);
    assert(m.s.n * w0.x == 0 && m.s.n * w0.y == 0 && m.s.n * w0.z == 0) by (nonlinear_arith)
        requires
            w0.x == 0,
            w0.y == 0,
            w0.z == 0,
    ;
    assert(w.x == 0 && w.y == 0 && w.z == 0);
    let d = w.d;
    let t = m.t;
    assert((t.x * d) * t.d == t.x * (d * t.d)) by (nonlinear_arith);
    assert((t.y * d) * t.d == t.y * (d * t.d)) by (nonlinear_arith);
    assert((t.z * d) * t.d == t.z * (d * t.d)) by (nonlinear_arith);
}

/// Components small enough that one composition or application stays
/// exact in 128-bit arithmetic.
pub open spec fn qiso_small(i: QIso) -> bool {
    &&& qv_ball(i.t, 0x1000_0000)
    &&& qr_small(i.r)
}

pub open spec fn qsim_small(m: QSim) -> bool {
    &&& qv_ball(m.t, 0x10_0000)
    &&& qr_small(m.r)
    &&& q_ball(m.s, 0x10_0000)
}

/// A rotor application maps a vector ball into a ball scaled by the
/// rotor's own bound.
pub proof fn lemma_qr_apply_ball(r: QR, v: QV, b: int)
    requires
        qr_wf(r),
        qr_small(r),
        qv_wf(v),
        qv_ball(v, b),
        0 <= b,
    ensures
        qv_ball(qr_apply(r, v), b * 0x1_0000_0000_0000_0000),
{
    lemma_mul_bound(r.s, r.s, 0x4000_0000, 0x4000_0000);
    lemma_mul_bound(r.s, r.x, 0x4000_0000, 0x4000_0000);
    lemma_mul_bound(r.s, r.y, 0x4000_0000, 0x4000_0000);
    lemma_mul_bound(r.s, r.z, 0x4000_0000, 0x4000_0000);
    lemma_mul_bound(r.x, r.x, 0x4000_0000, 0x4000_0000);
    lemma_mul_bound(r.x, r.y, 0x4000_0000, 0x4000_0000);
    lemma_mul_bound(r.x, r.z, 0x4000_0000, 0x4000_0000);
    lemma_mul_bound(r.y, r.y, 0x4000_0000, 0x4000_0000);
    lemma_mul_bound(r.y, r.z, 0x4000_0000, 0x4000_0000);
    lemma_mul_bound(r.z, r.z, 0x4000_0000, 0x4000_0000);
    lemma_mul_bound(r.d, r.d, 0x4000_0000, 0x4000_0000);
    lemma_mul_bound(crate::rotor3::qr_m00(r), v.x, 0x4000_0000_0000_0000, b);
    lemma_mul_bound(crate::rotor3::qr_m01(r), v.y, 0x4000_0000_0000_0000, b);
    lemma_mul_bound(crate::rotor3::qr_m02(r), v.z, 0x4000_0000_0000_0000, b);
    lemma_mul_bound(crate::rotor3::qr_m10(r), v.x, 0x4000_0000_0000_0000, b);
    lemma_mul_bound(crate::rotor3::qr_m11(r), v.y, 0x4000_0000_0000_0000, b);
    lemma_mul_bound(crate::rotor3::qr_m12(r), v.z, 0x4000_0000_0000_0000, b);
    lemma_mul_bound(crate::rotor3::qr_m20(r), v.x, 0x4000_0000_0000_0000, b);
    lemma_mul_bound(crate::rotor3::qr_m21(r), v.y, 0x4000_0000_0000_0000, b);
    lemma_mul_bound(crate::rotor3::qr_m22(r), v.z, 0x4000_0000_0000_0000, b);
    lemma_mul_bound(r.d * r.d, v.d, 0x1000_0000_0000_0000, b);
    assert(r.d * r.d * v.d > 0) by (nonlinear_arith)
        requires
            r.d > 0,
            v.d > 0,
    ;
    assert(3 * (b * 0x4000_0000_0000_0000) <= b * 0x1_0000_0000_0000_0000) by (nonlinear_arith)
        requires
            0 <= b,
    ;
    assert(b * 0x1000_0000_0000_0000 <= b * 0x1_0000_0000_0000_0000) by (nonlinear_arith)
        requires
            0 <= b,
    ;
}

/// An isometry: a rigid-body transform, rotation followed by translation.
#[derive(Clone, Copy, Debug)]
pub struct Isometry3 {
    pub translation: Vec3,
    pub rotation: Rotor3,
}

impl View for Isometry3 {
    type V = QIso;

    open spec fn view(&self) -> QIso {
        QIso { t: self.translation@, r: self.rotation@ }
    }
}

impl Isometry3 {
    pub fn new(translation: Vec3, rotation: Rotor3) -> (r: Isometry3)
        requires
            qv_wf(translation@),
            qr_wf(rotation@),
        ensures
            r@ == (QIso { t: translation@, r: rotation@ }),
            qiso_wf(r@),
    {
        Isometry3 { translation, rotation }
    }

    pub fn identity() -> (r: Isometry3)
        ensures
            r@ == qiso_id(),
            qiso_wf(r@),
            qiso_small(r@),
    {
        Isometry3 { translation: Vec3::zero(), rotation: Rotor3::identity() }
    }

    /// Adds a rotation before this isometry: only the rotational part
    /// changes.
    pub fn prepend_rotation(&mut self, rotor: Rotor3)
        requires
            qiso_wf(old(self)@),
            qr_wf(rotor@),
            qr_small(old(self)@.r),
            qr_small(rotor@),
        ensures
            final(self)@.r == qr_mul(rotor@, old(self)@.r),
            final(self)@.t == old(self)@.t,
            qiso_wf(final(self)@),
    {
        self.rotation = rotor.mul(self.rotation);
    }

    /// Adds a rotation after this isometry: the translation is re-rotated
    /// too.
    pub fn append_rotation(&mut self, rotor: Rotor3)
        requires
            qiso_wf(old(self)@),
            qr_wf(rotor@),
            qr_small(old(self)@.r),
            qr_small(rotor@),
            qv_ball(old(self)@.t, 0x1000_0000_0000_0000),
        ensures
            final(self)@.r == qr_mul(rotor@, old(self)@.r),
            final(self)@.t == qr_apply(rotor@, old(self)@.t),
            qiso_wf(final(self)@),
    {
        self.rotation = rotor.mul(self.rotation);
        self.translation = rotor.apply(self.translation);
    }

    /// Adds a translation before this isometry: it is rotated into this
    /// isometry's frame first.
    pub fn prepend_translation(&mut self, translation: Vec3)
        requires
            qiso_wf(old(self)@),
            qv_wf(translation@),
            qr_small(old(self)@.r),
            qv_ball(old(self)@.t, 0x1000_0000),
            qv_ball(translation@, 0x1000_0000),
        ensures
            final(self)@.r == old(self)@.r,
            final(self)@.t == qv_add(old(self)@.t, qr_apply(old(self)@.r, translation@)),
            qiso_wf(final(self)@),
    {
        proof {
            lemma_qr_apply_ball(self@.r, translation@, 0x1000_0000);
            lemma_add_fits_balls(
                self@.t,
                qr_apply(self@.r, translation@),
                0x1000_0000,
                (0x1000_0000 as int) * 0x1_0000_0000_0000_0000,
            );
        }
        let w = self.rotation.apply(translation);
        self.translation = self.translation.add(w);
    }

    /// Adds a translation after this isometry: added directly.
    pub fn append_translation(&mut self, translation: Vec3)
        requires
            qiso_wf(old(self)@),
            qv_wf(translation@),
            qv_add_fits(old(self)@.t, translation@),
        ensures
            final(self)@.r == old(self)@.r,
            final(self)@.t == qv_add(old(self)@.t, translation@),
            qiso_wf(final(self)@),
    {
        self.translation = self.translation.add(translation);
    }

    /// The composition `self * base`: applying it equals applying `base`,
    /// then `self`.
    pub fn compose(self, base: Isometry3) -> (r: Isometry3)
        requires
            qiso_wf(self@),
            qiso_wf(base@),
            qiso_small(self@),
            qiso_small(base@),
        ensures
            r@ == qiso_compose(self@, base@),
            qiso_wf(r@),
    {
        let trans = self.transform_vec(base.translation);
        let rot = self.rotation.mul(base.rotation);
        Isometry3 { translation: trans, rotation: rot }
    }

    /// Composes another isometry before this one: `self <- self * other`.
    pub fn prepend_isometry(&mut self, other: Isometry3)
        requires
            qiso_wf(old(self)@),
            qiso_wf(other@),
            qiso_small(old(self)@),
            qiso_small(other@),
        ensures
            final(self)@ == qiso_compose(old(self)@, other@),
            qiso_wf(final(self)@),
    {
        *self = self.compose(other);
    }

    /// Composes another isometry after this one: `self <- other * self`.
    pub fn append_isometry(&mut self, other: Isometry3)
        requires
            qiso_wf(old(self)@),
            qiso_wf(other@),
            qiso_small(old(self)@),
            qiso_small(other@),
        ensures
            final(self)@ == qiso_compose(other@, old(self)@),
            qiso_wf(final(self)@),
    {
        *self = other.compose(*self);
    }

    /// Inverts in place: reverse the rotation first, then rebuild the
    /// translation by rotating its negation with the reversed rotation.
    pub fn inverse(&mut self)
        requires
            qiso_wf(old(self)@),
            qiso_small(old(self)@),
        ensures
            final(self)@ == qiso_inv(old(self)@),
            qiso_wf(final(self)@),
    {
        self.rotation.reverse();
        let n = self.translation.neg();
        self.translation = self.rotation.apply(n);
    }

    /// The inverse, without mutating the receiver.
    pub fn inversed(self) -> (r: Isometry3)
        requires
            qiso_wf(self@),
            qiso_small(self@),
        ensures
            r@ == qiso_inv(self@),
            qiso_wf(r@),
    {
        let mut r = self;
        r.inverse();
        r
    }


    /// The homogeneous matrix of this isometry: the translation matrix
    /// times the homogeneously embedded rotation matrix, so translation
    /// applies after rotation, matching `transform_vec`.
    pub fn into_homogeneous_matrix(self) -> (r: Mat4)
        requires
            qiso_wf(self@),
            qiso_small(self@),
        ensures
            r@ == qm_mul(qm_from_translation(self@.t), qm_rotor_homogeneous(self@.r)),
            qm_wf(r@),
    {
        let m = homogeneous_parts(self.translation, self.rotation);
        proof {
            let tm = qm_mul(qm_from_translation(self@.t), qm_rotor_homogeneous(self@.r));
            assert(tm.e[0][0] == m@.e[0][0]);
            assert(tm.e[0][1] == m@.e[0][1]);
            assert(tm.e[0][2] == m@.e[0][2]);
            assert(tm.e[0][3] == m@.e[0][3]);
            assert(tm.e[1][0] == m@.e[1][0]);
            assert(tm.e[1][1] == m@.e[1][1]);
            assert(tm.e[1][2] == m@.e[1][2]);
            assert(tm.e[1][3] == m@.e[1][3]);
            assert(tm.e[2][0] == m@.e[2][0]);
            assert(tm.e[2][1] == m@.e[2][1]);
            assert(tm.e[2][2] == m@.e[2][2]);
            assert(tm.e[2][3] == m@.e[2][3]);
            assert(tm.e[3][0] == m@.e[3][0]);
            assert(tm.e[3][1] == m@.e[3][1]);
            assert(tm.e[3][2] == m@.e[3][2]);
            assert(tm.e[3][3] == m@.e[3][3]);
            assert(tm.e[0] =~= m@.e[0]);
            assert(tm.e[1] =~= m@.e[1]);
            assert(tm.e[2] =~= m@.e[2]);
            assert(tm.e[3] =~= m@.e[3]);
            assert(tm.e =~= m@.e);
        }
        m
    }

    /// Applies the isometry to a vector: rotate, then translate.
    pub fn transform_vec(&self, vec: Vec3) -> (r: Vec3)
        requires
            qiso_wf(self@),
            qv_wf(vec@),
            qr_small(self@.r),
            qv_ball(self@.t, 0x1000_0000),
            qv_ball(vec@, 0x1000_0000),
        ensures
            r@ == qiso_apply(self@, vec@),
            qv_wf(r@),
    {
        proof {
            lemma_qr_apply_ball(self@.r, vec@, 0x1000_0000);
            lemma_add_fits_balls(
                qr_apply(self@.r, vec@),
                self@.t,
                (0x1000_0000 as int) * 0x1_0000_0000_0000_0000,
                0x1000_0000,
            );
        }
        let w = self.rotation.apply(vec);
        w.add(self.translation)
    }
}

/// Vectors inside balls whose product of radii is small enough add
/// exactly.
proof fn lemma_add_fits_balls(a: QV, b: QV, ba: int, bb: int)
    requires
        qv_ball(a, ba),
        qv_ball(b, bb),
        0 <= ba,
        0 <= bb,
        ba * bb <= 0x2000_0000_0000_0000_0000_0000_0000_0000,
    ensures
        qv_add_fits(a, b),
{
    lemma_mul_bound(a.x, b.d, ba, bb);
    lemma_mul_bound(b.x, a.d, bb, ba);
    lemma_mul_bound(a.y, b.d, ba, bb);
    lemma_mul_bound(b.y, a.d, bb, ba);
    lemma_mul_bound(a.z, b.d, ba, bb);
    lemma_mul_bound(b.z, a.d, bb, ba);
    lemma_mul_bound(a.d, b.d, ba, bb);
    assert(bb * ba == ba * bb) by (nonlinear_arith);
}


/// A bounded scalar scales a bounded vector exactly.
proof fn lemma_scale_fits(s: Q, v: QV, bs: int, bv: int)
    requires
        q_ball(s, bs),
        qv_ball(v, bv),
        0 <= bs,
        0 <= bv,
        bs * bv <= 0x2000_0000_0000_0000_0000_0000_0000_0000,
    ensures
        crate::vec3::qv_scale_fits(s, v),
        qv_ball(qv_scale(s, v), bs * bv),
{
    lemma_mul_bound(s.n, v.x, bs, bv);
    lemma_mul_bound(s.n, v.y, bs, bv);
    lemma_mul_bound(s.n, v.z, bs, bv);
    lemma_mul_bound(s.d, v.d, bs, bv);
    assert(s.d * v.d > 0) by (nonlinear_arith)
        requires
            s.d > 0,
            v.d > 0,
    ;
}

/// A similarity: an isometry with an added uniform scaling, scale first,
/// then rotation, then translation.
#[derive(Clone, Copy, Debug)]
pub struct Similarity3 {
    pub translation: Vec3,
    pub rotation: Rotor3,
    pub scale: Rat,
}

impl View for Similarity3 {
    type V = QSim;

    open spec fn view(&self) -> QSim {
        QSim { t: self.translation@, r: self.rotation@, s: self.scale@ }
    }
}

impl Similarity3 {
    pub fn new(translation: Vec3, rotation: Rotor3, scale: Rat) -> (r: Similarity3)
        requires
            qv_wf(translation@),
            qr_wf(rotation@),
            q_wf(scale@),
        ensures
            r@ == (QSim { t: translation@, r: rotation@, s: scale@ }),
            qsim_wf(r@),
    {
        Similarity3 { translation, rotation, scale }
    }

    pub fn identity() -> (r: Similarity3)
        ensures
            r@ == qsim_id(),
            qsim_wf(r@),
            qsim_small(r@),
    {
        Similarity3 {
            translation: Vec3::zero(),
            rotation: Rotor3::identity(),
            scale: Rat::one(),
        }
    }

    /// Adds a scaling before this similarity: only the scale changes.
    pub fn prepend_scaling(&mut self, scaling: Rat)
        requires
            qsim_wf(old(self)@),
            q_wf(scaling@),
            crate::rat::q_mul_fits(old(self)@.s, scaling@),
        ensures
            final(self)@.s == q_mul(old(self)@.s, scaling@),
            final(self)@.r == old(self)@.r,
            final(self)@.t == old(self)@.t,
            qsim_wf(final(self)@),
    {
        self.scale = self.scale.mul(scaling);
    }

    /// Adds a scaling after this similarity: the translation scales too.
    pub fn append_scaling(&mut self, scaling: Rat)
        requires
            qsim_wf(old(self)@),
            q_wf(scaling@),
            crate::rat::q_mul_fits(old(self)@.s, scaling@),
            crate::vec3::qv_scale_fits(scaling@, old(self)@.t),
        ensures
            final(self)@.s == q_mul(old(self)@.s, scaling@),
            final(self)@.r == old(self)@.r,
            final(self)@.t == qv_scale(scaling@, old(self)@.t),
            qsim_wf(final(self)@),
    {
        self.scale = self.scale.mul(scaling);
        self.translation = self.translation.scale(scaling);
    }

    /// Adds a rotation before this similarity: only the rotational part
    /// changes.
    pub fn prepend_rotation(&mut self, rotor: Rotor3)
        requires
            qsim_wf(old(self)@),
            qr_wf(rotor@),
            qr_small(old(self)@.r),
            qr_small(rotor@),
        ensures
            final(self)@.r == qr_mul(rotor@, old(self)@.r),
            final(self)@.t == old(self)@.t,
            final(self)@.s == old(self)@.s,
            qsim_wf(final(self)@),
    {
        self.rotation = rotor.mul(self.rotation);
    }

    /// Adds a rotation after this similarity: the translation is
    /// re-rotated too.
    pub fn append_rotation(&mut self, rotor: Rotor3)
        requires
            qsim_wf(old(self)@),
            qr_wf(rotor@),
            qr_small(old(self)@.r),
            qr_small(rotor@),
            qv_ball(old(self)@.t, 0x1000_0000_0000_0000),
        ensures
            final(self)@.r == qr_mul(rotor@, old(self)@.r),
            final(self)@.t == qr_apply(rotor@, old(self)@.t),
            final(self)@.s == old(self)@.s,
            qsim_wf(final(self)@),
    {
        self.rotation = rotor.mul(self.rotation);
        self.translation = rotor.apply(self.translation);
    }

    /// Adds a translation before this similarity: it is rotated and
    /// scaled into this similarity's frame first.
    pub fn prepend_translation(&mut self, translation: Vec3)
        requires
            qsim_wf(old(self)@),
            qv_wf(translation@),
            qsim_small(old(self)@),
            qv_ball(translation@, 0x10_0000),
        ensures
            final(self)@.r == old(self)@.r,
            final(self)@.s == old(self)@.s,
            final(self)@.t == qv_add(
                old(self)@.t,
                qv_scale(old(self)@.s, qr_apply(old(self)@.r, translation@)),
            ),
            qsim_wf(final(self)@),
    {
        proof {
            lemma_qr_apply_ball(self@.r, translation@, 0x10_0000);
            lemma_scale_fits(
                self@.s,
                qr_apply(self@.r, translation@),
                0x10_0000,
                (0x10_0000 as int) * 0x1_0000_0000_0000_0000,
            );
            lemma_add_fits_balls(
                self@.t,
                qv_scale(self@.s, qr_apply(self@.r, translation@)),
                0x10_0000,
                (0x10_0000 as int) * ((0x10_0000 as int) * 0x1_0000_0000_0000_0000),
            );
        }
        let w = self.rotation.apply(translation);
        let w = w.scale(self.scale);
        self.translation = self.translation.add(w);
    }

    /// Adds a translation after this similarity: added directly.
    pub fn append_translation(&mut self, translation: Vec3)
        requires
            qsim_wf(old(self)@),
            qv_wf(translation@),
            qv_add_fits(old(self)@.t, translation@),
        ensures
            final(self)@.r == old(self)@.r,
            final(self)@.s == old(self)@.s,
            final(self)@.t == qv_add(old(self)@.t, translation@),
            qsim_wf(final(self)@),
    {
        self.translation = self.translation.add(translation);
    }

    /// The composition `self * base`: applying it equals applying `base`,
    /// then `self`.
    pub fn compose(self, base: Similarity3) -> (r: Similarity3)
        requires
            qsim_wf(self@),
            qsim_wf(base@),
            qsim_small(self@),
            qsim_small(base@),
        ensures
            r@ == qsim_compose(self@, base@),
            qsim_wf(r@),
    {
        proof {
            lemma_mul_bound(self@.s.n, base@.s.n, 0x10_0000, 0x10_0000);
            lemma_mul_bound(self@.s.d, base@.s.d, 0x10_0000, 0x10_0000);
        }
        let trans = self.transform_vec(base.translation);
        let rot = self.rotation.mul(base.rotation);
        let scale = self.scale.mul(base.scale);
        Similarity3 { translation: trans, rotation: rot, scale }
    }

    /// Composes another similarity before this one: `self <- self * other`.
    pub fn prepend_similarity(&mut self, other: Similarity3)
        requires
            qsim_wf(old(self)@),
            qsim_wf(other@),
            qsim_small(old(self)@),
            qsim_small(other@),
        ensures
            final(self)@ == qsim_compose(old(self)@, other@),
            qsim_wf(final(self)@),
    {
        *self = self.compose(other);
    }

    /// Composes another similarity after this one: `self <- other * self`.
    pub fn append_similarity(&mut self, other: Similarity3)
        requires
            qsim_wf(old(self)@),
            qsim_wf(other@),
            qsim_small(old(self)@),
            qsim_small(other@),
        ensures
            final(self)@ == qsim_compose(other@, old(self)@),
            qsim_wf(final(self)@),
    {
        *self = other.compose(*self);
    }

    /// Inverts in place: the rotation is reversed, the translation is
    /// rebuilt from the reversed rotation alone, and the scale becomes its
    /// reciprocal. The caller must not invert a zero scale.
    pub fn inverse(&mut self)
        requires
            qsim_wf(old(self)@),
            qsim_small(old(self)@),
            old(self)@.s.n != 0,
        ensures
            final(self)@ == qsim_inv(old(self)@),
            qsim_wf(final(self)@),
    {
        self.rotation.reverse();
        let n = self.translation.neg();
        self.translation = self.rotation.apply(n);
        self.scale = if self.scale.num < 0 {
            Rat { num: -self.scale.den, den: -self.scale.num }
        } else {
            Rat { num: self.scale.den, den: self.scale.num }
        };
    }

    /// The inverse, without mutating the receiver.
    pub fn inversed(self) -> (r: Similarity3)
        requires
            qsim_wf(self@),
            qsim_small(self@),
            self@.s.n != 0,
        ensures
            r@ == qsim_inv(self@),
            qsim_wf(r@),
    {
        let mut r = self;
        r.inverse();
        r
    }


    /// The homogeneous matrix of this similarity: the translation matrix
    /// times the homogeneously embedded rotation matrix. The scale is not
    /// folded into the matrix: the export uses rotation and translation
    /// alone, exactly as the isometry export does.
    pub fn into_homogeneous_matrix(self) -> (r: Mat4)
        requires
            qsim_wf(self@),
            qsim_small(self@),
        ensures
            r@ == qm_mul(qm_from_translation(self@.t), qm_rotor_homogeneous(self@.r)),
            qm_wf(r@),
    {
        let m = homogeneous_parts(self.translation, self.rotation);
        proof {
            let tm = qm_mul(qm_from_translation(self@.t), qm_rotor_homogeneous(self@.r));
            assert(tm.e[0][0] == m@.e[0][0]);
            assert(tm.e[0][1] == m@.e[0][1]);
            assert(tm.e[0][2] == m@.e[0][2]);
            assert(tm.e[0][3] == m@.e[0][3]);
            assert(tm.e[1][0] == m@.e[1][0]);
            assert(tm.e[1][1] == m@.e[1][1]);
            assert(tm.e[1][2] == m@.e[1][2]);
            assert(tm.e[1][3] == m@.e[1][3]);
            assert(tm.e[2][0] == m@.e[2][0]);
            assert(tm.e[2][1] == m@.e[2][1]);
            assert(tm.e[2][2] == m@.e[2][2]);
            assert(tm.e[2][3] == m@.e[2][3]);
            assert(tm.e[3][0] == m@.e[3][0]);
            assert(tm.e[3][1] == m@.e[3][1]);
            assert(tm.e[3][2] == m@.e[3][2]);
            assert(tm.e[3][3] == m@.e[3][3]);
            assert(tm.e[0] =~= m@.e[0]);
            assert(tm.e[1] =~= m@.e[1]);
            assert(tm.e[2] =~= m@.e[2]);
            assert(tm.e[3] =~= m@.e[3]);
            assert(tm.e =~= m@.e);
        }
        m
    }

    /// Applies the similarity to a vector: rotate, scale, then translate.
    pub fn transform_vec(&self, vec: Vec3) -> (r: Vec3)
        requires
            qsim_wf(self@),
            qv_wf(vec@),
            qsim_small(self@),
            qv_ball(vec@, 0x10_0000),
        ensures
            r@ == qsim_apply(self@, vec@),
            qv_wf(r@),
    {
        proof {
            lemma_qr_apply_ball(self@.r, vec@, 0x10_0000);
            lemma_scale_fits(
                self@.s,
                qr_apply(self@.r, vec@),
                0x10_0000,
                (0x10_0000 as int) * 0x1_0000_0000_0000_0000,
            );
            lemma_add_fits_balls(
                qv_scale(self@.s, qr_apply(self@.r, vec@)),
                self@.t,
                (0x10_0000 as int) * ((0x10_0000 as int) * 0x1_0000_0000_0000_0000),
                0x10_0000,
            );
        }
        let w = self.rotation.apply(vec);
        let w = w.scale(self.scale);
        w.add(self.translation)
    }
}


/// The product of a translation matrix and a homogeneously embedded
/// rotation matrix, written out entry by entry.
fn homogeneous_parts(translation: Vec3, rotation: Rotor3) -> (r: Mat4)
    requires
        qv_wf(translation@),
        qr_wf(rotation@),
        qr_small(rotation@),
        qv_ball(translation@, 0x1000_0000_0000_0000),
    ensures
        r@.d == translation@.d * (rotation@.d * rotation@.d),
        r@.e[0][0] == translation@.d * crate::rotor3::qr_m00(rotation@),
        r@.e[0][1] == translation@.d * crate::rotor3::qr_m01(rotation@),
        r@.e[0][2] == translation@.d * crate::rotor3::qr_m02(rotation@),
        r@.e[0][3] == translation@.x * (rotation@.d * rotation@.d),
        r@.e[1][0] == translation@.d * crate::rotor3::qr_m10(rotation@),
        r@.e[1][1] == translation@.d * crate::rotor3::qr_m11(rotation@),
        r@.e[1][2] == translation@.d * crate::rotor3::qr_m12(rotation@),
        r@.e[1][3] == translation@.y * (rotation@.d * rotation@.d),
        r@.e[2][0] == translation@.d * crate::rotor3::qr_m20(rotation@),
        r@.e[2][1] == translation@.d * crate::rotor3::qr_m21(rotation@),
        r@.e[2][2] == translation@.d * crate::rotor3::qr_m22(rotation@),
        r@.e[2][3] == translation@.z * (rotation@.d * rotation@.d),
        r@.e[3][0] == 0 && r@.e[3][1] == 0 && r@.e[3][2] == 0,
        r@.e[3][3] == translation@.d * (rotation@.d * rotation@.d),
        qm_wf(r@),
{
    let t = translation;
    let q = rotation;
    proof {
        lemma_mul_bound(q@.s, q@.s, 0x4000_0000, 0x4000_0000);
        lemma_mul_bound(q@.s, q@.x, 0x4000_0000, 0x4000_0000);
        lemma_mul_bound(q@.s, q@.y, 0x4000_0000, 0x4000_0000);
        lemma_mul_bound(q@.s, q@.z, 0x4000_0000, 0x4000_0000);
        lemma_mul_bound(q@.x, q@.x, 0x4000_0000, 0x4000_0000);
        lemma_mul_bound(q@.x, q@.y, 0x4000_0000, 0x4000_0000);
        lemma_mul_bound(q@.x, q@.z, 0x4000_0000, 0x4000_0000);
        lemma_mul_bound(q@.y, q@.y, 0x4000_0000, 0x4000_0000);
        lemma_mul_bound(q@.y, q@.z, 0x4000_0000, 0x4000_0000);
        lemma_mul_bound(q@.z, q@.z, 0x4000_0000, 0x4000_0000);
        lemma_mul_bound(q@.d, q@.d, 0x4000_0000, 0x4000_0000);
    }
    let m00 = q.s * q.s + q.x * q.x - q.y * q.y - q.z * q.z;
    let m01 = 2 * (q.x * q.y - q.s * q.z);
    let m02 = 2 * (q.x * q.z + q.s * q.y);
    let m10 = 2 * (q.x * q.y + q.s * q.z);
    let m11 = q.s * q.s - q.x * q.x + q.y * q.y - q.z * q.z;
    let m12 = 2 * (q.y * q.z - q.s * q.x);
    let m20 = 2 * (q.x * q.z - q.s * q.y);
    let m21 = 2 * (q.y * q.z + q.s * q.x);
    let m22 = q.s * q.s - q.x * q.x - q.y * q.y + q.z * q.z;
    let dd = q.den * q.den;
    proof {
        lemma_mul_bound(t@.d, m00 as int, 0x1000_0000_0000_0000, 0x8000_0000_0000_0000);
        lemma_mul_bound(t@.d, m01 as int, 0x1000_0000_0000_0000, 0x8000_0000_0000_0000);
        lemma_mul_bound(t@.d, m02 as int, 0x1000_0000_0000_0000, 0x8000_0000_0000_0000);
        lemma_mul_bound(t@.d, m10 as int, 0x1000_0000_0000_0000, 0x8000_0000_0000_0000);
        lemma_mul_bound(t@.d, m11 as int, 0x1000_0000_0000_0000, 0x8000_0000_0000_0000);
        lemma_mul_bound(t@.d, m12 as int, 0x1000_0000_0000_0000, 0x8000_0000_0000_0000);
        lemma_mul_bound(t@.d, m20 as int, 0x1000_0000_0000_0000, 0x8000_0000_0000_0000);
        lemma_mul_bound(t@.d, m21 as int, 0x1000_0000_0000_0000, 0x8000_0000_0000_0000);
        lemma_mul_bound(t@.d, m22 as int, 0x1000_0000_0000_0000, 0x8000_0000_0000_0000);
        lemma_mul_bound(t@.x, dd as int, 0x1000_0000_0000_0000, 0x1000_0000_0000_0000);
        lemma_mul_bound(t@.y, dd as int, 0x1000_0000_0000_0000, 0x1000_0000_0000_0000);
        lemma_mul_bound(t@.z, dd as int, 0x1000_0000_0000_0000, 0x1000_0000_0000_0000);
        lemma_mul_bound(t@.d, dd as int, 0x1000_0000_0000_0000, 0x1000_0000_0000_0000);
        assert(t@.d * (q@.d * q@.d) > 0) by (nonlinear_arith)
            requires
                t@.d > 0,
                q@.d > 0,
        ;
    }
    Mat4 {
        m00: t.den * m00,
        m01: t.den * m01,
        m02: t.den * m02,
        m03: t.x * dd,
        m10: t.den * m10,
        m11: t.den * m11,
        m12: t.den * m12,
        m13: t.y * dd,
        m20: t.den * m20,
        m21: t.den * m21,
        m22: t.den * m22,
        m23: t.z * dd,
        m30: 0,
        m31: 0,
        m32: 0,
        m33: t.den * dd,
        den: t.den * dd,
    }
}


/// Round trip for pure translations: an isometry whose rotation is the
/// identity rotor undoes itself exactly. The same law for a general
/// rotation needs the orthogonality of the rotor's matrix and is checked
/// here only at runtime, on concrete rotors.
pub proof fn lemma_translation_roundtrip(i: QIso, v: QV)
    requires
        qiso_wf(i),
        qv_wf(v),
        i.r == qr_id(),
    ensures
        qv_eqv(qiso_apply(qiso_inv(i), qiso_apply(i, v)), v),
{
    let t = i.t;
    assert(qr_rev(qr_id()) == qr_id());
    assert(qr_apply(qr_id(), v) == v) by (nonlinear_arith);
    assert(qr_apply(qr_id(), qv_neg(t)) == qv_neg(t)) by (nonlinear_arith);
    let w = qiso_apply(i, v);
    assert(w == qv_add(v, t));
    assert(qr_apply(qr_id(), w) == w) by (nonlinear_arith);
    let out = qiso_apply(qiso_inv(i), w);
    assert(out == qv_add(w, qv_neg(t)));
    assert(((v.x * t.d + t.x * v.d) * t.d + (-t.x) * (v.d * t.d)) * v.d == v.x * ((v.d * t.d)
        * t.d)) by (nonlinear_arith);
    assert(((v.y * t.d + t.y * v.d) * t.d + (-t.y) * (v.d * t.d)) * v.d == v.y * ((v.d * t.d)
        * t.d)) by (nonlinear_arith);
    assert(((v.z * t.d + t.z * v.d) * t.d + (-t.z) * (v.d * t.d)) * v.d == v.z * ((v.d * t.d)
        * t.d)) by (nonlinear_arith);
}



/// One component of the unit-scale round trip, reduced to regrouping.
proof fn lemma_unit_scale_cancel(sd: int, vx: int, vd: int, tx: int, td: int)
    ensures
        (sd * ((sd * vx) * td + tx * (sd * vd)) * td + (-tx) * (sd * ((sd * vd) * td))) * vd
            == vx * ((sd * ((sd * vd) * td)) * td),
{
    let a = (sd * vx) * td;
    let b = tx * (sd * vd);
    let k = sd * sd;
    let u = td * td;
    assert(sd * (a + b) == sd * a + sd * b) by (nonlinear_arith);
    assert((sd * a + sd * b) * td == (sd * a) * td + (sd * b) * td) by (nonlinear_arith);
    assert((sd * b) * td == tx * (sd * ((sd * vd) * td))) by (nonlinear_arith)
        requires
            b == tx * (sd * vd),
    ;
    assert((sd * a) * td == (k * vx) * u) by (nonlinear_arith)
        requires
            a == (sd * vx) * td,
            k == sd * sd,
            u == td * td,
    ;
    assert((sd * ((sd * vd) * td)) * td == (k * vd) * u) by (nonlinear_arith)
        requires
            k == sd * sd,
            u == td * td,
    ;
    assert(((k * vx) * u) * vd == vx * ((k * vd) * u)) by (nonlinear_arith);
    assert((-tx) * (sd * ((sd * vd) * td)) == -(tx * (sd * ((sd * vd) * td))))
        by (nonlinear_arith);
}

/// Round trip for a similarity with unit scale and identity rotation: it
/// undoes itself exactly. The restriction to unit scale is essential:
/// the inverse divides the scale but leaves the scale out of the
/// translation, so a similarity with scale 2 and translation (1, 0, 0)
/// does not round-trip.
pub proof fn lemma_similarity_roundtrip_unit_scale(m: QSim, v: QV)
    requires
        qsim_wf(m),
        qv_wf(v),
        m.r == qr_id(),
        q_eqv(m.s, q_one()),
    ensures
        qv_eqv(qsim_apply(qsim_inv(m), qsim_apply(m, v)), v),
{
    let t = m.t;
    let sn = m.s.n;
    let sd = m.s.d;
    assert(sn == sd);
    assert(qr_rev(qr_id()) == qr_id());
    assert(qr_apply(qr_id(), v) == v) by (nonlinear_arith);
    assert(qr_apply(qr_id(), qv_neg(t)) == qv_neg(t)) by (nonlinear_arith);
    let w = qsim_apply(m, v);
    assert(w == qv_add(qv_scale(m.s, v), t));
    assert(qr_apply(qr_id(), w) == w) by (nonlinear_arith);
    assert(qsim_inv(m).s == (Q { n: sd, d: sn }));
    let out = qsim_apply(qsim_inv(m), w);
    assert(out == qv_add(qv_scale(Q { n: sd, d: sn }, w), qv_neg(t)));
    lemma_unit_scale_cancel(sd, v.x, v.d, t.x, t.d);
    lemma_unit_scale_cancel(sd, v.y, v.d, t.y, t.d);
    lemma_unit_scale_cancel(sd, v.z, v.d, t.z, t.d);
}

} // verus!
