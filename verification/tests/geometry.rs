use geokernel::rat::Rat;
use geokernel::vec3::Vec3;
use geokernel::geometry::{Plane, Ray};

fn rat_f32(x: f32) -> Rat {
    let bits = x.to_bits();
    let sign: i128 = if bits >> 31 == 1 { -1 } else { 1 };
    let exp = ((bits >> 23) & 0xff) as i32;
    let mant = (bits & 0x7f_ffff) as i128;
    let (m, e) = if exp == 0 {
        (mant, -149i32)
    } else {
        (mant | 0x80_0000, exp - 150)
    };
    if m == 0 {
        Rat::zero()
    } else if e >= 0 {
        Rat::new(sign * (m << e), 1)
    } else {
        Rat::new(sign * m, 1i128 << (-e))
    }
}

fn vec_f32(x: f32, y: f32, z: f32) -> Vec3 {
    let rx = rat_f32(x);
    let ry = rat_f32(y);
    let rz = rat_f32(z);
    let den = rx.den.max(ry.den).max(rz.den);
    Vec3::new(
        rx.num * (den / rx.den),
        ry.num * (den / ry.den),
        rz.num * (den / rz.den),
        den,
    )
}

fn to_f64(r: &Rat) -> f64 {
    r.num as f64 / r.den as f64
}

fn close(v: &Vec3, x: f64, y: f64, z: f64) -> bool {
    let d = v.den as f64;
    (v.x as f64 / d - x).abs() < 1e-4 && (v.y as f64 / d - y).abs() < 1e-4
        && (v.z as f64 / d - z).abs() < 1e-4
}

#[test]
fn ray_intersect_plane() {
    let plane = Plane::with_z(rat_f32(0.0));

    let ray = Ray {
        origin: vec_f32(0.020_277_506, -0.033_236_53, 51.794),
        direction: vec_f32(0.179_559_51, -0.294_313_04, -0.938_689_65),
    };
    let distance = ray.intersect_plane(&plane).unwrap();
    let point = ray.at_distance(distance);
    assert!(close(&point, 9.927_818, -16.272_524, 0.0));

    let ray = Ray {
        origin: vec_f32(-0.003_106_177, 0.034_074_64, 0.799_999_95),
        direction: vec_f32(-0.029_389_05, 0.322_396_73, -0.946_148_3),
    };
    let distance = ray.intersect_plane(&plane).unwrap();
    let point = ray.at_distance(distance);
    assert!(close(&point, -0.027_955_6, 0.306_671_83, 0.0));
}

#[test]
fn at_distance() {
    let ray = Ray {
        origin: vec_f32(0.020_277_506, -0.033_236_53, 51.794),
        direction: vec_f32(0.179_559_51, -0.294_313_04, -0.938_689_65),
    };
    // at_distance subtracts the scaled direction, so the point at a
    // positive distance lies opposite the direction of travel ...
    let point = ray.at_distance(Rat::from_int(5));
    assert!(close(&point, -0.877_520_04, 1.438_328_7, 56.487_448));
    // ... and the point reached by walking five units along the
    // direction is the one at distance -5.
    let walked = ray.at_distance(Rat::from_int(-5));
    assert!(close(&walked, 0.918_075_1, -1.504_801_8, 47.100_55));
}

#[test]
fn intersection_point_lies_exactly_on_plane() {
    let plane = Plane::with_z(Rat::zero());
    let ray = Ray {
        origin: vec_f32(0.020_277_506, -0.033_236_53, 51.794),
        direction: vec_f32(0.179_559_51, -0.294_313_04, -0.938_689_65),
    };
    let distance = ray.intersect_plane(&plane).unwrap();
    let point = ray.at_distance(distance);
    assert!(plane.dot_point(&point).is_zero());
}

#[test]
fn parallel_ray_yields_no_intersection() {
    let plane = Plane::with_z(Rat::zero());
    let ray = Ray {
        origin: Vec3::new(0, 0, 1, 1),
        direction: Vec3::new(1, 0, 0, 1),
    };
    assert!(ray.intersect_plane(&plane).is_none());
    let slanted = Ray {
        origin: Vec3::new(0, 0, 1, 1),
        direction: Vec3::new(0, 0, -1, 1),
    };
    assert!(slanted.intersect_plane(&plane).is_some());
}

#[test]
fn at_distance_subtracts_direction() {
    let ray = Ray {
        origin: Vec3::new(0, 0, 0, 1),
        direction: Vec3::new(0, 0, 1, 1),
    };
    let p = ray.at_distance(Rat::from_int(2));
    assert!(p.eqv(Vec3::new(0, 0, -2, 1)));
}

#[test]
fn normalize_scales_normal_and_bias_together() {
    let plane = Plane::new(Vec3::new(3, 4, 0, 1), Rat::from_int(10));
    let unit = plane.normalize().unwrap();
    let n = unit.normal();
    assert_eq!(n.x * n.x + n.y * n.y + n.z * n.z, n.den * n.den);
    assert!(unit.bias().eqv(Rat::from_int(2)));
    // A point on the original plane stays on the normalized plane.
    let on_plane = Vec3::new(-2, -1, 0, 1);
    assert!(plane.dot_point(&on_plane).is_zero());
    assert!(unit.dot_point(&on_plane).is_zero());
}

#[test]
fn normalize_rejects_irrational_norm() {
    let plane = Plane::new(Vec3::new(1, 1, 0, 1), Rat::from_int(1));
    assert!(plane.normalize().is_none());
}

#[test]
fn from_point_normal_normalizes_first() {
    let p = Plane::from_point_normal(&Vec3::new(0, 0, 7, 1), &Vec3::new(0, 0, 5, 1)).unwrap();
    let n = p.normal();
    assert_eq!((n.x, n.y, n.z, n.den), (0, 0, 5, 5));
    assert!(p.bias().eqv(Rat::from_int(7)));
}

#[test]
fn from_point_vectors_uses_cross_product() {
    let p = Plane::from_point_vectors(
        &Vec3::new(0, 0, 2, 1),
        &Vec3::new(1, 0, 0, 1),
        &Vec3::new(0, 1, 0, 1),
    )
    .unwrap();
    let n = p.normal();
    assert_eq!((n.x, n.y, n.z, n.den), (0, 0, 1, 1));
    assert!(p.bias().eqv(Rat::from_int(2)));
}

#[test]
fn dot_plane_is_four_component_dot() {
    let a = Plane::new(Vec3::new(1, 2, 3, 1), Rat::from_int(4));
    let b = Plane::new(Vec3::new(5, 6, 7, 1), Rat::from_int(8));
    assert!(a.dot_plane(&b).eqv(Rat::from_int(70)));
}

#[test]
fn dot_and_dot_point_differ_by_bias() {
    let plane = Plane::with_y(Rat::from_int(3));
    let v = Vec3::new(1, 2, 5, 1);
    assert!(plane.dot(&v).eqv(Rat::from_int(2)));
    assert!(plane.dot_point(&v).eqv(Rat::from_int(5)));
    let d = plane.dot_point(&v);
    assert!((to_f64(&d) - 5.0).abs() < 1e-12);
}

#[test]
fn vector_norms() {
    let v = Vec3::new(3, 4, 0, 1);
    let m = v.mag().unwrap();
    assert!(m.eqv(Rat::from_int(5)));
    let u = v.normalized().unwrap();
    assert_eq!((u.x, u.y, u.z, u.den), (3, 4, 0, 5));
    assert!(Vec3::new(1, 1, 0, 1).mag().is_none());
    assert!(Vec3::new(0, 0, 0, 1).normalized().is_none());
}
