use geokernel::rat::Rat;
use geokernel::vec3::Vec3;
use geokernel::rotor3::Rotor3;
use geokernel::transform::{Isometry3, Similarity3};

#[test]
fn homogeneous_matrix_is_translation_times_rotation() {
    // With the rotor (3/5, 4/5 about x) and translation (1, 2, 3), the
    // matrix carries the scaled rotation block, the translation in the
    // last column, and a unit bottom-right corner.
    let iso = Isometry3::new(Vec3::new(1, 2, 3, 1), rotor(3, 4, 0, 0, 5));
    let m = iso.into_homogeneous_matrix();
    assert_eq!(m.den, 25);
    assert_eq!((m.m00, m.m01, m.m02, m.m03), (25, 0, 0, 25));
    assert_eq!((m.m10, m.m11, m.m12, m.m13), (0, -7, -24, 50));
    assert_eq!((m.m20, m.m21, m.m22, m.m23), (0, 24, -7, 75));
    assert_eq!((m.m30, m.m31, m.m32, m.m33), (0, 0, 0, 25));
    // The similarity export leaves the scale out of the matrix.
    let sim = Similarity3::new(Vec3::new(1, 2, 3, 1), rotor(3, 4, 0, 0, 5), Rat::from_int(9));
    let sm = sim.into_homogeneous_matrix();
    assert_eq!((sm.m11, sm.m13, sm.den), (-7, 50, 25));
}

fn rotor(s: i128, x: i128, y: i128, z: i128, den: i128) -> Rotor3 {
    Rotor3::new(s, x, y, z, den).unwrap()
}

fn rotors_agree(a: &Rotor3, b: &Rotor3) -> bool {
    a.s * b.den == b.s * a.den && a.x * b.den == b.x * a.den && a.y * b.den == b.y * a.den
        && a.z * b.den == b.z * a.den
}

#[test]
fn rotor_constructor_checks_unit_norm() {
    assert!(Rotor3::new(3, 4, 0, 0, 5).is_some());
    assert!(Rotor3::new(1, 1, 0, 0, 1).is_none());
    assert!(Rotor3::new(1, 0, 0, 0, 0).is_none());
}

#[test]
fn rotor_rotates_vector() {
    // (s, z) = (3/5, 4/5) rotates about the z axis; columns stay exact.
    let r = rotor(3, 0, 0, 4, 5);
    let v = Vec3::new(1, 0, 0, 1);
    let w = r.apply(v);
    // Rotation matrix entry: cos = (9 - 16) / 25, sin = 24 / 25.
    assert!(w.eqv(Vec3::new(-7, 24, 0, 25)));
    // Rotating back with the reversed rotor recovers the vector.
    let back = r.reversed().apply(w);
    assert!(back.eqv(v));
}

#[test]
fn isometry_round_trip() {
    let iso = Isometry3::new(Vec3::new(1, 2, 3, 1), rotor(3, 4, 0, 0, 5));
    let v = Vec3::new(7, -2, 5, 2);
    let there = iso.transform_vec(v);
    let back = iso.inversed().transform_vec(there);
    assert!(back.eqv(v));
}

#[test]
fn similarity_round_trip_unit_scale() {
    let sim = Similarity3::new(Vec3::new(1, 2, 3, 1), rotor(3, 4, 0, 0, 5), Rat::one());
    let v = Vec3::new(7, -2, 5, 2);
    let there = sim.transform_vec(v);
    let back = sim.inversed().transform_vec(there);
    assert!(back.eqv(v));
}

#[test]
fn similarity_round_trip_fails_with_scale_and_translation() {
    // The inverse leaves the scale out of the translation, so with
    // scale 2 and a nonzero translation the round trip misses the
    // original vector.
    let sim = Similarity3::new(
        Vec3::new(1, 0, 0, 1),
        Rotor3::identity(),
        Rat::from_int(2),
    );
    let v = Vec3::new(3, 0, 0, 1);
    let there = sim.transform_vec(v);
    let back = sim.inversed().transform_vec(there);
    assert!(!back.eqv(v));
    // With a zero translation the same scale round-trips exactly.
    let sim0 = Similarity3::new(Vec3::zero(), Rotor3::identity(), Rat::from_int(2));
    let there0 = sim0.transform_vec(v);
    let back0 = sim0.inversed().transform_vec(there0);
    assert!(back0.eqv(v));
}

#[test]
fn isometry_composition_is_associative() {
    let a = Isometry3::new(Vec3::new(1, 0, 2, 1), rotor(3, 4, 0, 0, 5));
    let b = Isometry3::new(Vec3::new(0, 1, 1, 2), rotor(3, 0, 4, 0, 5));
    let c = Isometry3::new(Vec3::new(2, 2, 0, 1), rotor(1, 0, 0, 0, 1));
    let left = a.compose(b).compose(c);
    let right = a.compose(b.compose(c));
    assert!(left.translation.eqv(right.translation));
    assert!(rotors_agree(&left.rotation, &right.rotation));
    // Both orders act identically on a vector.
    let v = Vec3::new(5, -1, 3, 1);
    assert!(left.transform_vec(v).eqv(right.transform_vec(v)));
}

#[test]
fn similarity_composition_is_associative() {
    let a = Similarity3::new(Vec3::new(1, 0, 2, 1), rotor(3, 4, 0, 0, 5), Rat::from_int(2));
    let b = Similarity3::new(Vec3::new(0, 1, 1, 2), rotor(3, 0, 4, 0, 5), Rat::new(1, 2));
    let c = Similarity3::new(Vec3::new(2, 2, 0, 1), rotor(1, 0, 0, 0, 1), Rat::from_int(3));
    let left = a.compose(b).compose(c);
    let right = a.compose(b.compose(c));
    assert!(left.translation.eqv(right.translation));
    assert!(rotors_agree(&left.rotation, &right.rotation));
    assert!(left.scale.eqv(right.scale));
}

#[test]
fn identity_laws() {
    let x = Isometry3::new(Vec3::new(4, -1, 2, 3), rotor(3, 4, 0, 0, 5));
    let l = Isometry3::identity().compose(x);
    let r = x.compose(Isometry3::identity());
    assert!(l.translation.eqv(x.translation) && rotors_agree(&l.rotation, &x.rotation));
    assert!(r.translation.eqv(x.translation) && rotors_agree(&r.rotation, &x.rotation));

    let s = Similarity3::new(Vec3::new(4, -1, 2, 3), rotor(3, 4, 0, 0, 5), Rat::from_int(2));
    let sl = Similarity3::identity().compose(s);
    let sr = s.compose(Similarity3::identity());
    assert!(sl.translation.eqv(s.translation) && rotors_agree(&sl.rotation, &s.rotation));
    assert!(sl.scale.eqv(s.scale));
    assert!(sr.translation.eqv(s.translation) && rotors_agree(&sr.rotation, &s.rotation));
    assert!(sr.scale.eqv(s.scale));
}

#[test]
fn prepend_and_append_follow_their_formulas() {
    let r = rotor(3, 4, 0, 0, 5);
    let mut iso = Isometry3::new(Vec3::new(1, 2, 3, 1), Rotor3::identity());
    iso.prepend_rotation(r);
    assert!(iso.translation.eqv(Vec3::new(1, 2, 3, 1)));
    assert!(rotors_agree(&iso.rotation, &r));

    let mut iso2 = Isometry3::new(Vec3::new(0, 3, 0, 1), Rotor3::identity());
    iso2.append_translation(Vec3::new(1, 1, 1, 1));
    assert!(iso2.translation.eqv(Vec3::new(1, 4, 1, 1)));

    // Prepending a translation rotates it into the isometry's frame.
    let mut iso3 = Isometry3::new(Vec3::zero(), rotor(3, 0, 0, 4, 5));
    iso3.prepend_translation(Vec3::new(1, 0, 0, 1));
    assert!(iso3.translation.eqv(Vec3::new(-7, 24, 0, 25)));

    let mut sim = Similarity3::new(Vec3::new(2, 0, 0, 1), Rotor3::identity(), Rat::from_int(3));
    sim.append_scaling(Rat::from_int(2));
    assert!(sim.scale.eqv(Rat::from_int(6)));
    assert!(sim.translation.eqv(Vec3::new(4, 0, 0, 1)));

    let mut sim2 = Similarity3::new(Vec3::zero(), Rotor3::identity(), Rat::from_int(3));
    sim2.prepend_scaling(Rat::from_int(2));
    assert!(sim2.scale.eqv(Rat::from_int(6)));
    assert!(sim2.translation.eqv(Vec3::zero()));

    // Prepending a translation to a similarity scales and rotates it.
    let mut sim3 = Similarity3::new(Vec3::zero(), rotor(3, 0, 0, 4, 5), Rat::from_int(2));
    sim3.prepend_translation(Vec3::new(1, 0, 0, 1));
    assert!(sim3.translation.eqv(Vec3::new(-14, 48, 0, 25)));
}

#[test]
fn append_isometry_composes_on_the_left() {
    let a = Isometry3::new(Vec3::new(1, 0, 0, 1), rotor(3, 4, 0, 0, 5));
    let b = Isometry3::new(Vec3::new(0, 1, 0, 1), rotor(3, 0, 4, 0, 5));
    let mut x = a;
    x.append_isometry(b);
    let y = b.compose(a);
    assert!(x.translation.eqv(y.translation));
    assert!(rotors_agree(&x.rotation, &y.rotation));
    let mut z = a;
    z.prepend_isometry(b);
    let w = a.compose(b);
    assert!(z.translation.eqv(w.translation));
    assert!(rotors_agree(&z.rotation, &w.rotation));
}
