//! Exact homogeneous 4x4 matrices, as the export target of the transforms.
//!
//! A matrix holds sixteen integer numerators over one common positive
//! denominator. Only what the transforms need is here: a translation
//! matrix, the homogeneous embedding of a rotor's rotation matrix, and
//! their product.

use vstd::prelude::*;
use crate::vec3::QV;
use crate::rotor3::{QR, qr_m00, qr_m01, qr_m02, qr_m10, qr_m11, qr_m12, qr_m20, qr_m21, qr_m22};

verus! {

/// Mathematical model of a homogeneous matrix: row-major entries over a
/// common denominator.
pub ghost struct QM {
    pub e: Seq<Seq<int>>,
    pub d: int,
}

pub open spec fn qm_wf(m: QM) -> bool {
    &&& m.d > 0
    &&& m.e.len() == 4
    &&& forall|i: int| 0 <= i < 4 ==> #[trigger] m.e[i].len() == 4
}

/// The translation matrix of `t`: the identity with `t` as last column.
pub open spec fn qm_from_translation(t: QV) -> QM {
    QM {
        e: seq![
            seq![t.d, 0, 0, t.x],
            seq![0, t.d, 0, t.y],
            seq![0, 0, t.d, t.z],
            seq![0, 0, 0, t.d],
        ],
        d: t.d,
    }
}

/// The rotation matrix of a rotor, embedded homogeneously: the extra row
/// and column are zero except for a one in the corner.
pub open spec fn qm_rotor_homogeneous(r: QR) -> QM {
    QM {
        e: seq![
            seq![qr_m00(r), qr_m01(r), qr_m02(r), 0],
            seq![qr_m10(r), qr_m11(r), qr_m12(r), 0],
            seq![qr_m20(r), qr_m21(r), qr_m22(r), 0],
            seq![0, 0, 0, r.d * r.d],
        ],
        d: r.d * r.d,
    }
}

/// The matrix product `a * b`.
pub open spec fn qm_mul(a: QM, b: QM) -> QM {
    QM {
        e: Seq::new(4, |i: int| Seq::new(4, |j: int|
            a.e[i][0] * b.e[0][j] + a.e[i][1] * b.e[1][j] + a.e[i][2] * b.e[2][j]
                + a.e[i][3] * b.e[3][j])),
        d: a.d * b.d,
    }
}

/// An exact homogeneous matrix: sixteen numerators over one denominator,
/// row-major.
#[derive(Clone, Copy, Debug)]
pub struct Mat4 {
    pub m00: i128,
    pub m01: i128,
    pub m02: i128,
    pub m03: i128,
    pub m10: i128,
    pub m11: i128,
    pub m12: i128,
    pub m13: i128,
    pub m20: i128,
    pub m21: i128,
    pub m22: i128,
    pub m23: i128,
    pub m30: i128,
    pub m31: i128,
    pub m32: i128,
    pub m33: i128,
    pub den: i128,
}

impl View for Mat4 {
    type V = QM;

    open spec fn view(&self) -> QM {
        QM {
            e: seq![
                seq![self.m00 as int, self.m01 as int, self.m02 as int, self.m03 as int],
                seq![self.m10 as int, self.m11 as int, self.m12 as int, self.m13 as int],
                seq![self.m20 as int, self.m21 as int, self.m22 as int, self.m23 as int],
                seq![self.m30 as int, self.m31 as int, self.m32 as int, self.m33 as int],
            ],
            d: self.den as int,
        }
    }
}

} // verus!
