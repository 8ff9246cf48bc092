//! An exact-arithmetic computational-geometry and rigid-transform kernel.
//!
//! Scalars are rational numbers held as integer numerator/denominator pairs,
//! vectors and rotors carry a common denominator, so every operation of the
//! kernel is exact and its algebraic laws can be stated and proved precisely.
//!
//! The kernel provides plane representation and ray/plane intersection, plus
//! composable rigid-body transforms (isometries: rotation and translation)
//! and similarity transforms (rotation, translation and uniform scale).

pub mod rat;
pub mod vec3;
pub mod rotor3;
pub mod matrix;
pub mod geometry;
pub mod transform;
