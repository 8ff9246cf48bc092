//! Planes and rays, with exact ray/plane intersection.
//!
//! A plane is stored as a normal vector and a bias scalar; the plane
//! equation is `dot(normal, x) + bias == 0`. A ray is an origin and a
//! direction. Intersection is exact: the only failure is a direction whose
//! dot product with the plane normal is exactly zero.

use vstd::prelude::*;
use crate::rat::{Q, Rat, q_wf, q_ball, q_zero, q_eqv, q_add, q_mul, q_div, q_add_fits, q_mul_fits, q_div_fits};
use crate::vec3::{QV, Vec3, qv_wf, qv_dot, qv_cross, qv_scale, qv_sub, qv_norm_sq_num, qv_dot_fits, qv_scale_fits, qv_add_fits, lemma_sqrt_le};
use crate::rotor3::{qv_ball, lemma_mul_bound};

verus! {

/// Mathematical model of a plane: normal `n` and bias `b`.
pub ghost struct QP {
    pub n: QV,
    pub b: Q,
}

pub open spec fn qp_wf(p: QP) -> bool {
    &&& qv_wf(p.n)
    &&& q_wf(p.b)
}

/// The plane-equation value at `v`: `dot(n, v) + b`.
pub open spec fn qp_dot_point(p: QP, v: QV) -> Q {
    q_add(qv_dot(p.n, v), p.b)
}

/// The directional component only: `dot(n, v)` without the bias.
pub open spec fn qp_dot(p: QP, v: QV) -> Q {
    qv_dot(p.n, v)
}

/// The four-component inner product of two planes.
pub open spec fn qp_dot_plane(p: QP, o: QP) -> Q {
    q_add(qv_dot(p.n, o.n), q_mul(p.b, o.b))
}

/// The structural relation between a plane and its normalized form: the
/// normal keeps its numerators over the exact norm as denominator, and the
/// bias is divided by the same norm.
pub open spec fn qp_normalized_of(pn: QP, p: QP) -> bool {
    &&& pn.n.x == p.n.x
    &&& pn.n.y == p.n.y
    &&& pn.n.z == p.n.z
    &&& pn.n.d > 0
    &&& pn.n.d * pn.n.d == qv_norm_sq_num(p.n)
    &&& pn.b.n == p.b.n * p.n.d
    &&& pn.b.d == p.b.d * pn.n.d
}

/// Normalizing a plane rescales the plane-equation value by the positive
/// norm, so the set of points on the plane is unchanged.
pub proof fn lemma_normalize_dot_point(pn: QP, p: QP, v: QV)
    requires
        qp_wf(p),
        qp_wf(pn),
        qp_normalized_of(pn, p),
        qv_wf(v),
    ensures
        q_eqv(qp_dot_point(pn, v), q_zero()) <==> q_eqv(qp_dot_point(p, v), q_zero()),
{
    let s = p.n.x * v.x + p.n.y * v.y + p.n.z * v.z;
    assert(s * (p.b.d * pn.n.d) == pn.n.d * (s * p.b.d)) by (nonlinear_arith);
    assert((p.b.n * p.n.d) * (pn.n.d * v.d) == pn.n.d * (p.b.n * (p.n.d * v.d)))
        by (nonlinear_arith);
    assert(pn.n.d * (s * p.b.d) + pn.n.d * (p.b.n * (p.n.d * v.d)) == pn.n.d * (s * p.b.d + p.b.n
        * (p.n.d * v.d))) by (nonlinear_arith);
    assert(qp_dot_point(pn, v).n == pn.n.d * qp_dot_point(p, v).n);
    assert(pn.n.d * qp_dot_point(p, v).n == 0 <==> qp_dot_point(p, v).n == 0)
        by (nonlinear_arith)
        requires
            pn.n.d > 0,
    ;
}

/// A plane which can be intersected by a ray.
#[derive(Clone, Copy, Debug)]
pub struct Plane {
    normal: Vec3,
    bias: Rat,
}

impl View for Plane {
    type V = QP;

    closed spec fn view(&self) -> QP {
        QP { n: self.normal@, b: self.bias@ }
    }
}

impl Plane {
    /// The raw constructor: no normalization, the caller owns the scaling.
    pub fn new(normal: Vec3, bias: Rat) -> (r: Plane)
        requires
            qv_wf(normal@),
            q_wf(bias@),
        ensures
            r@.n == normal@,
            r@.b == bias@,
            qp_wf(r@),
    {
        Plane { normal, bias }
    }

    /// The plane through `point` with the given normal, normalized first;
    /// `None` when the normal has no exact unit form (zero, or a norm that
    /// is not a perfect square).
    pub fn from_point_normal(point: &Vec3, normal: &Vec3) -> (r: Option<Plane>)
        requires
            qv_wf(point@),
            qv_wf(normal@),
            qv_ball(point@, 0x1000_0000_0000_0000),
            qv_ball(normal@, 0x1000_0000_0000_0000),
        ensures
            match r {
                Some(p) => {
                    &&& qp_wf(p@)
                    &&& p@.n.x == normal@.x
                    &&& p@.n.y == normal@.y
                    &&& p@.n.z == normal@.z
                    &&& p@.n.d > 0
                    &&& p@.n.d * p@.n.d == qv_norm_sq_num(normal@)
                    &&& p@.b == qv_dot(point@, p@.n)
                },
                None => forall|s: int|
                    s > 0 ==> #[trigger] (s * s) != qv_norm_sq_num(normal@),
            },
    {
        proof {
            lemma_mul_bound(normal@.x, normal@.x, 0x1000_0000_0000_0000, 0x1000_0000_0000_0000);
            lemma_mul_bound(normal@.y, normal@.y, 0x1000_0000_0000_0000, 0x1000_0000_0000_0000);
            lemma_mul_bound(normal@.z, normal@.z, 0x1000_0000_0000_0000, 0x1000_0000_0000_0000);
            lemma_mul_bound(normal@.d, normal@.d, 0x1000_0000_0000_0000, 0x1000_0000_0000_0000);
        }
        match normal.normalized() {
            None => None,
            Some(u) => {
                proof {
                    assert((0x2000_0000_0000_0000 as int) * 0x2000_0000_0000_0000 >= u@.d * u@.d);
                    lemma_sqrt_le(u@.d, 0x2000_0000_0000_0000);
                    lemma_mul_bound(point@.x, u@.x, 0x1000_0000_0000_0000, 0x1000_0000_0000_0000);
                    lemma_mul_bound(point@.y, u@.y, 0x1000_0000_0000_0000, 0x1000_0000_0000_0000);
                    lemma_mul_bound(point@.z, u@.z, 0x1000_0000_0000_0000, 0x1000_0000_0000_0000);
                    lemma_mul_bound(point@.d, u@.d, 0x1000_0000_0000_0000, 0x2000_0000_0000_0000);
                }
                let bias = point.dot(u);
                Some(Plane { normal: u, bias })
            },
        }
    }

    /// The plane through `point` whose normal is the cross product of the
    /// two given vectors.
    pub fn from_point_vectors(point: &Vec3, v1: &Vec3, v2: &Vec3) -> (r: Option<Plane>)
        requires
            qv_wf(point@),
            qv_wf(v1@),
            qv_wf(v2@),
            qv_ball(point@, 0x1000_0000_0000_0000),
            qv_ball(v1@, 0x2000_0000),
            qv_ball(v2@, 0x2000_0000),
        ensures
            match r {
                Some(p) => {
                    &&& qp_wf(p@)
                    &&& p@.n.x == qv_cross(v1@, v2@).x
                    &&& p@.n.y == qv_cross(v1@, v2@).y
                    &&& p@.n.z == qv_cross(v1@, v2@).z
                    &&& p@.n.d > 0
                    &&& p@.n.d * p@.n.d == qv_norm_sq_num(qv_cross(v1@, v2@))
                    &&& p@.b == qv_dot(point@, p@.n)
                },
                None => forall|s: int|
                    s > 0 ==> #[trigger] (s * s) != qv_norm_sq_num(qv_cross(v1@, v2@)),
            },
    {
        proof {
            lemma_mul_bound(v1@.y, v2@.z, 0x2000_0000, 0x2000_0000);
            lemma_mul_bound(v1@.z, v2@.y, 0x2000_0000, 0x2000_0000);
            lemma_mul_bound(v1@.z, v2@.x, 0x2000_0000, 0x2000_0000);
            lemma_mul_bound(v1@.x, v2@.z, 0x2000_0000, 0x2000_0000);
            lemma_mul_bound(v1@.x, v2@.y, 0x2000_0000, 0x2000_0000);
            lemma_mul_bound(v1@.y, v2@.x, 0x2000_0000, 0x2000_0000);
            lemma_mul_bound(v1@.d, v2@.d, 0x2000_0000, 0x2000_0000);
        }
        let n = v1.cross(*v2);
        Self::from_point_normal(point, &n)
    }

    /// The plane facing along the x axis at the given coordinate.
    pub fn with_x(x: Rat) -> (r: Plane)
        requires
            q_wf(x@),
        ensures
            r@.n == (QV { x: 1, y: 0, z: 0, d: 1 }),
            r@.b == x@,
            qp_wf(r@),
    {
        Plane { normal: Vec3 { x: 1, y: 0, z: 0, den: 1 }, bias: x }
    }

    /// The plane facing along the y axis at the given coordinate.
    pub fn with_y(y: Rat) -> (r: Plane)
        requires
            q_wf(y@),
        ensures
            r@.n == (QV { x: 0, y: 1, z: 0, d: 1 }),
            r@.b == y@,
            qp_wf(r@),
    {
        Plane { normal: Vec3 { x: 0, y: 1, z: 0, den: 1 }, bias: y }
    }

    /// The plane facing along the z axis at the given coordinate.
    pub fn with_z(z: Rat) -> (r: Plane)
        requires
            q_wf(z@),
        ensures
            r@.n == (QV { x: 0, y: 0, z: 1, d: 1 }),
            r@.b == z@,
            qp_wf(r@),
    {
        Plane { normal: Vec3 { x: 0, y: 0, z: 1, den: 1 }, bias: z }
    }

    /// This plane's normal.
    pub fn normal(&self) -> (r: &Vec3)
        ensures
            r@ == self@.n,
    {
        &self.normal
    }

    /// This plane's bias.
    pub fn bias(&self) -> (r: &Rat)
        ensures
            r@ == self@.b,
    {
        &self.bias
    }

    /// The same plane with a unit normal: normal and bias both divided by
    /// the norm of the normal. `None` when the normal has no exact unit
    /// form.
    pub fn normalize(&self) -> (r: Option<Plane>)
        requires
            qp_wf(self@),
            qv_ball(self@.n, 0x1000_0000_0000_0000),
            q_ball(self@.b, 0x1000_0000_0000_0000),
        ensures
            match r {
                Some(p) => {
                    &&& qp_wf(p@)
                    &&& qp_normalized_of(p@, self@)
                },
                None => forall|s: int|
                    s > 0 ==> #[trigger] (s * s) != qv_norm_sq_num(self@.n),
            },
    {
        proof {
            lemma_mul_bound(self@.n.x, self@.n.x, 0x1000_0000_0000_0000, 0x1000_0000_0000_0000);
            lemma_mul_bound(self@.n.y, self@.n.y, 0x1000_0000_0000_0000, 0x1000_0000_0000_0000);
            lemma_mul_bound(self@.n.z, self@.n.z, 0x1000_0000_0000_0000, 0x1000_0000_0000_0000);
            lemma_mul_bound(self@.n.d, self@.n.d, 0x1000_0000_0000_0000, 0x1000_0000_0000_0000);
        }
        match self.normal.normalized() {
            None => None,
            Some(u) => {
                proof {
                    assert((0x2000_0000_0000_0000 as int) * 0x2000_0000_0000_0000 >= u@.d * u@.d);
                    lemma_sqrt_le(u@.d, 0x2000_0000_0000_0000);
                    lemma_mul_bound(
                        self@.b.n,
                        self@.n.d,
                        0x1000_0000_0000_0000,
                        0x1000_0000_0000_0000,
                    );
                    lemma_mul_bound(self@.b.d, u@.d, 0x1000_0000_0000_0000, 0x2000_0000_0000_0000);
                    assert(self@.b.d * u@.d > 0) by (nonlinear_arith)
                        requires
                            self@.b.d > 0,
                            u@.d > 0,
                    ;
                }
                let bias = Rat { num: self.bias.num * self.normal.den, den: self.bias.den * u.den };
                Some(Plane { normal: u, bias })
            },
        }
    }

    /// The plane-equation value at `point`: `dot(normal, point) + bias`.
    /// Zero exactly on the plane; the sign tells the side.
    pub fn dot_point(&self, point: &Vec3) -> (r: Rat)
        requires
            qp_wf(self@),
            qv_wf(point@),
            qv_dot_fits(self@.n, point@),
            q_add_fits(qv_dot(self@.n, point@), self@.b),
        ensures
            r@ == qp_dot_point(self@, point@),
            q_wf(r@),
    {
        self.normal.dot(*point).add(self.bias)
    }

    /// The directional component only: `dot(normal, point)` without the
    /// bias term.
    pub fn dot(&self, point: &Vec3) -> (r: Rat)
        requires
            qp_wf(self@),
            qv_wf(point@),
            qv_dot_fits(self@.n, point@),
        ensures
            r@ == qp_dot(self@, point@),
            q_wf(r@),
    {
        self.normal.dot(*point)
    }

    /// The four-component inner product with another plane, treating
    /// `(normal, bias)` as one four-vector.
    pub fn dot_plane(&self, plane: &Plane) -> (r: Rat)
        requires
            qp_wf(self@),
            qp_wf(plane@),
            qv_dot_fits(self@.n, plane@.n),
            q_mul_fits(self@.b, plane@.b),
            q_add_fits(qv_dot(self@.n, plane@.n), q_mul(self@.b, plane@.b)),
        ensures
            r@ == qp_dot_plane(self@, plane@),
            q_wf(r@),
    {
        self.normal.dot(plane.normal).add(self.bias.mul(plane.bias))
    }

    /// The distance along the line `point + t * direction` at which it
    /// meets the plane: `dot_point(point) / dot(direction)`. `None` exactly
    /// when the direction is parallel to the plane, that is when
    /// `dot(direction)` is zero.
    pub fn intersect_line(&self, point: &Vec3, direction: &Vec3) -> (r: Option<Rat>)
        requires
            qp_wf(self@),
            qv_wf(point@),
            qv_wf(direction@),
            qv_dot_fits(self@.n, direction@),
            qv_dot_fits(self@.n, point@),
            q_add_fits(qv_dot(self@.n, point@), self@.b),
            q_div_fits(qp_dot_point(self@, point@), qv_dot(self@.n, direction@)),
        ensures
            r is Some <==> qv_dot(self@.n, direction@).n != 0,
            match r {
                Some(d) => {
                    &&& d@ == q_div(qp_dot_point(self@, point@), qv_dot(self@.n, direction@))
                    &&& q_wf(d@)
                },
                None => true,
            },
    {
        let fv = self.dot(direction);
        if fv.num == 0 {
            None
        } else {
            Some(self.dot_point(point).div(fv))
        }
    }

    /// The intersection distance of the given ray, or `None` when the ray
    /// is parallel to the plane.
    pub fn intersect_ray(&self, ray: &Ray) -> (r: Option<Rat>)
        requires
            qp_wf(self@),
            qv_wf(ray.origin@),
            qv_wf(ray.direction@),
            qv_dot_fits(self@.n, ray.direction@),
            qv_dot_fits(self@.n, ray.origin@),
            q_add_fits(qv_dot(self@.n, ray.origin@), self@.b),
            q_div_fits(qp_dot_point(self@, ray.origin@), qv_dot(self@.n, ray.direction@)),
        ensures
            r is Some <==> qv_dot(self@.n, ray.direction@).n != 0,
            match r {
                Some(d) => {
                    &&& d@ == q_div(qp_dot_point(self@, ray.origin@), qv_dot(self@.n, ray.direction@))
                    &&& q_wf(d@)
                },
                None => true,
            },
    {
        self.intersect_line(&ray.origin, &ray.direction)
    }
}

/// A ray: an infinite half-line starting at `origin` and walking along
/// `direction`.
#[derive(Clone, Copy, Debug)]
pub struct Ray {
    pub origin: Vec3,
    pub direction: Vec3,
}

impl Ray {
    /// The distance along the ray at which it meets the plane, or `None`
    /// when the ray is parallel to the plane.
    pub fn intersect_plane(&self, plane: &Plane) -> (r: Option<Rat>)
        requires
            qp_wf(plane@),
            qv_wf(self.origin@),
            qv_wf(self.direction@),
            qv_dot_fits(plane@.n, self.direction@),
            qv_dot_fits(plane@.n, self.origin@),
            q_add_fits(qv_dot(plane@.n, self.origin@), plane@.b),
            q_div_fits(qp_dot_point(plane@, self.origin@), qv_dot(plane@.n, self.direction@)),
        ensures
            r is Some <==> qv_dot(plane@.n, self.direction@).n != 0,
            match r {
                Some(d) => {
                    &&& d@ == q_div(qp_dot_point(plane@, self.origin@), qv_dot(plane@.n, self.direction@))
                    &&& q_wf(d@)
                },
                None => true,
            },
    {
        plane.intersect_ray(self)
    }

    /// The point `origin - direction * t`: the subtraction is the
    /// convention paired with the sign of the intersection distance.
    pub fn at_distance(&self, z: Rat) -> (r: Vec3)
        requires
            qv_wf(self.origin@),
            qv_wf(self.direction@),
            q_wf(z@),
            qv_scale_fits(z@, self.direction@),
            qv_add_fits(self.origin@, qv_scale(z@, self.direction@)),
        ensures
            r@ == qv_sub(self.origin@, qv_scale(z@, self.direction@)),
            qv_wf(r@),
    {
        self.origin.sub(self.direction.scale(z))
    }
}

} // verus!
