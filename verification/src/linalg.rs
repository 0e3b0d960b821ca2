//! Exact rational vectors and matrices.
//!
//! Column vectors of three or four components and square matrices of order
//! three and four, all over `Rat`. The executable operations mirror the
//! spec-level formulas entry by entry; an operation reports `None` when a
//! reduced entry cannot be narrowed back to `i64`.

use crate::rational::{
    lemma_req_add, lemma_req_mul, lemma_req_trans, mul_wide, radd, rat_add, rat_mul, reduce128,
    req, rmul, rone, rsub, rwf, rzero, Rat, Ratio,
};
use vstd::prelude::*;

verus! {

/// Mathematical value of a three-component vector.
pub ghost struct Vec3Val {
    pub x: Ratio,
    pub y: Ratio,
    pub z: Ratio,
}

/// Mathematical value of a four-component (homogeneous) vector.
pub ghost struct Vec4Val {
    pub x: Ratio,
    pub y: Ratio,
    pub z: Ratio,
    pub w: Ratio,
}

/// Mathematical value of a 3x3 matrix, row by row.
pub ghost struct Mat3Val {
    pub m11: Ratio,
    pub m12: Ratio,
    pub m13: Ratio,
    pub m21: Ratio,
    pub m22: Ratio,
    pub m23: Ratio,
    pub m31: Ratio,
    pub m32: Ratio,
    pub m33: Ratio,
}

/// Mathematical value of a 4x4 matrix, row by row.
pub ghost struct Mat4Val {
    pub m11: Ratio,
    pub m12: Ratio,
    pub m13: Ratio,
    pub m14: Ratio,
    pub m21: Ratio,
    pub m22: Ratio,
    pub m23: Ratio,
    pub m24: Ratio,
    pub m31: Ratio,
    pub m32: Ratio,
    pub m33: Ratio,
    pub m34: Ratio,
    pub m41: Ratio,
    pub m42: Ratio,
    pub m43: Ratio,
    pub m44: Ratio,
}

/// Executable three-component vector.
#[derive(Clone, Copy, Debug, PartialEq, Eq, Structural)]
pub struct Vec3 {
    pub x: Rat,
    pub y: Rat,
    pub z: Rat,
}

/// Executable four-component vector.
#[derive(Clone, Copy, Debug, PartialEq, Eq, Structural)]
pub struct Vec4 {
    pub x: Rat,
    pub y: Rat,
    pub z: Rat,
    pub w: Rat,
}

/// Executable 3x3 matrix, row by row.
#[derive(Clone, Copy, Debug, PartialEq, Eq, Structural)]
pub struct Mat3 {
    pub m11: Rat,
    pub m12: Rat,
    pub m13: Rat,
    pub m21: Rat,
    pub m22: Rat,
    pub m23: Rat,
    pub m31: Rat,
    pub m32: Rat,
    pub m33: Rat,
}

/// Executable 4x4 matrix, row by row.
#[derive(Clone, Copy, Debug, PartialEq, Eq, Structural)]
pub struct Mat4 {
    pub m11: Rat,
    pub m12: Rat,
    pub m13: Rat,
    pub m14: Rat,
    pub m21: Rat,
    pub m22: Rat,
    pub m23: Rat,
    pub m24: Rat,
    pub m31: Rat,
    pub m32: Rat,
    pub m33: Rat,
    pub m34: Rat,
    pub m41: Rat,
    pub m42: Rat,
    pub m43: Rat,
    pub m44: Rat,
}

impl View for Vec3 {
    type V = Vec3Val;

    open spec fn view(&self) -> Vec3Val {
        Vec3Val { x: self.x@, y: self.y@, z: self.z@ }
    }
}

impl View for Vec4 {
    type V = Vec4Val;

    open spec fn view(&self) -> Vec4Val {
        Vec4Val { x: self.x@, y: self.y@, z: self.z@, w: self.w@ }
    }
}

impl View for Mat3 {
    type V = Mat3Val;

    open spec fn view(&self) -> Mat3Val {
        Mat3Val {
            m11: self.m11@,
            m12: self.m12@,
            m13: self.m13@,
            m21: self.m21@,
            m22: self.m22@,
            m23: self.m23@,
            m31: self.m31@,
            m32: self.m32@,
            m33: self.m33@,
        }
    }
}

impl View for Mat4 {
    type V = Mat4Val;

    open spec fn view(&self) -> Mat4Val {
        Mat4Val {
            m11: self.m11@,
            m12: self.m12@,
            m13: self.m13@,
            m14: self.m14@,
            m21: self.m21@,
            m22: self.m22@,
            m23: self.m23@,
            m24: self.m24@,
            m31: self.m31@,
            m32: self.m32@,
            m33: self.m33@,
            m34: self.m34@,
            m41: self.m41@,
            m42: self.m42@,
            m43: self.m43@,
            m44: self.m44@,
        }
    }
}

pub open spec fn vec3_wf(v: Vec3Val) -> bool {
    rwf(v.x) && rwf(v.y) && rwf(v.z)
}

pub open spec fn vec4_wf(v: Vec4Val) -> bool {
    rwf(v.x) && rwf(v.y) && rwf(v.z) && rwf(v.w)
}

pub open spec fn mat3_wf(m: Mat3Val) -> bool {
    &&& rwf(m.m11) && rwf(m.m12) && rwf(m.m13)
    &&& rwf(m.m21) && rwf(m.m22) && rwf(m.m23)
    &&& rwf(m.m31) && rwf(m.m32) && rwf(m.m33)
}

pub open spec fn mat4_wf(m: Mat4Val) -> bool {
    &&& rwf(m.m11) && rwf(m.m12) && rwf(m.m13) && rwf(m.m14)
    &&& rwf(m.m21) && rwf(m.m22) && rwf(m.m23) && rwf(m.m24)
    &&& rwf(m.m31) && rwf(m.m32) && rwf(m.m33) && rwf(m.m34)
    &&& rwf(m.m41) && rwf(m.m42) && rwf(m.m43) && rwf(m.m44)
}

/// Componentwise value equality of three-component vectors.
pub open spec fn vec3_eq(a: Vec3Val, b: Vec3Val) -> bool {
    req(a.x, b.x) && req(a.y, b.y) && req(a.z, b.z)
}

/// Componentwise value equality of four-component vectors.
pub open spec fn vec4_eq(a: Vec4Val, b: Vec4Val) -> bool {
    req(a.x, b.x) && req(a.y, b.y) && req(a.z, b.z) && req(a.w, b.w)
}

/// Entrywise value equality of 3x3 matrices.
pub open spec fn mat3_eq(a: Mat3Val, b: Mat3Val) -> bool {
    &&& req(a.m11, b.m11) && req(a.m12, b.m12) && req(a.m13, b.m13)
    &&& req(a.m21, b.m21) && req(a.m22, b.m22) && req(a.m23, b.m23)
    &&& req(a.m31, b.m31) && req(a.m32, b.m32) && req(a.m33, b.m33)
}

/// Entrywise value equality of 4x4 matrices.
pub open spec fn mat4_eq(a: Mat4Val, b: Mat4Val) -> bool {
    &&& req(a.m11, b.m11) && req(a.m12, b.m12) && req(a.m13, b.m13) && req(a.m14, b.m14)
    &&& req(a.m21, b.m21) && req(a.m22, b.m22) && req(a.m23, b.m23) && req(a.m24, b.m24)
    &&& req(a.m31, b.m31) && req(a.m32, b.m32) && req(a.m33, b.m33) && req(a.m34, b.m34)
    &&& req(a.m41, b.m41) && req(a.m42, b.m42) && req(a.m43, b.m43) && req(a.m44, b.m44)
}

/// Four-term inner product, the building block of every matrix operation.
pub open spec fn sdot4(
    a0: Ratio,
    a1: Ratio,
    a2: Ratio,
    a3: Ratio,
    b0: Ratio,
    b1: Ratio,
    b2: Ratio,
    b3: Ratio,
) -> Ratio {
    radd(radd(radd(rmul(a0, b0), rmul(a1, b1)), rmul(a2, b2)), rmul(a3, b3))
}

/// Three-term inner product.
pub open spec fn sdot3(a0: Ratio, a1: Ratio, a2: Ratio, b0: Ratio, b1: Ratio, b2: Ratio) -> Ratio {
    radd(radd(rmul(a0, b0), rmul(a1, b1)), rmul(a2, b2))
}

/// Matrix times homogeneous vector.
pub open spec fn m4_mul_v4(m: Mat4Val, v: Vec4Val) -> Vec4Val {
    Vec4Val {
        x: sdot4(m.m11, m.m12, m.m13, m.m14, v.x, v.y, v.z, v.w),
        y: sdot4(m.m21, m.m22, m.m23, m.m24, v.x, v.y, v.z, v.w),
        z: sdot4(m.m31, m.m32, m.m33, m.m34, v.x, v.y, v.z, v.w),
        w: sdot4(m.m41, m.m42, m.m43, m.m44, v.x, v.y, v.z, v.w),
    }
}

/// Product of two 4x4 matrices.
pub open spec fn m4_mul_m4(a: Mat4Val, b: Mat4Val) -> Mat4Val {
    Mat4Val {
        m11: sdot4(a.m11, a.m12, a.m13, a.m14, b.m11, b.m21, b.m31, b.m41),
        m12: sdot4(a.m11, a.m12, a.m13, a.m14, b.m12, b.m22, b.m32, b.m42),
        m13: sdot4(a.m11, a.m12, a.m13, a.m14, b.m13, b.m23, b.m33, b.m43),
        m14: sdot4(a.m11, a.m12, a.m13, a.m14, b.m14, b.m24, b.m34, b.m44),
        m21: sdot4(a.m21, a.m22, a.m23, a.m24, b.m11, b.m21, b.m31, b.m41),
        m22: sdot4(a.m21, a.m22, a.m23, a.m24, b.m12, b.m22, b.m32, b.m42),
        m23: sdot4(a.m21, a.m22, a.m23, a.m24, b.m13, b.m23, b.m33, b.m43),
        m24: sdot4(a.m21, a.m22, a.m23, a.m24, b.m14, b.m24, b.m34, b.m44),
        m31: sdot4(a.m31, a.m32, a.m33, a.m34, b.m11, b.m21, b.m31, b.m41),
        m32: sdot4(a.m31, a.m32, a.m33, a.m34, b.m12, b.m22, b.m32, b.m42),
        m33: sdot4(a.m31, a.m32, a.m33, a.m34, b.m13, b.m23, b.m33, b.m43),
        m34: sdot4(a.m31, a.m32, a.m33, a.m34, b.m14, b.m24, b.m34, b.m44),
        m41: sdot4(a.m41, a.m42, a.m43, a.m44, b.m11, b.m21, b.m31, b.m41),
        m42: sdot4(a.m41, a.m42, a.m43, a.m44, b.m12, b.m22, b.m32, b.m42),
        m43: sdot4(a.m41, a.m42, a.m43, a.m44, b.m13, b.m23, b.m33, b.m43),
        m44: sdot4(a.m41, a.m42, a.m43, a.m44, b.m14, b.m24, b.m34, b.m44),
    }
}

/// Product of two 3x3 matrices.
pub open spec fn m3_mul_m3(a: Mat3Val, b: Mat3Val) -> Mat3Val {
    Mat3Val {
        m11: sdot3(a.m11, a.m12, a.m13, b.m11, b.m21, b.m31),
        m12: sdot3(a.m11, a.m12, a.m13, b.m12, b.m22, b.m32),
        m13: sdot3(a.m11, a.m12, a.m13, b.m13, b.m23, b.m33),
        m21: sdot3(a.m21, a.m22, a.m23, b.m11, b.m21, b.m31),
        m22: sdot3(a.m21, a.m22, a.m23, b.m12, b.m22, b.m32),
        m23: sdot3(a.m21, a.m22, a.m23, b.m13, b.m23, b.m33),
        m31: sdot3(a.m31, a.m32, a.m33, b.m11, b.m21, b.m31),
        m32: sdot3(a.m31, a.m32, a.m33, b.m12, b.m22, b.m32),
        m33: sdot3(a.m31, a.m32, a.m33, b.m13, b.m23, b.m33),
    }
}

/// Determinant of a 3x3 matrix by cofactor expansion along the first row.
pub open spec fn det3(m: Mat3Val) -> Ratio {
    radd(
        rsub(
            rmul(m.m11, rsub(rmul(m.m22, m.m33), rmul(m.m23, m.m32))),
            rmul(m.m12, rsub(rmul(m.m21, m.m33), rmul(m.m23, m.m31))),
        ),
        rmul(m.m13, rsub(rmul(m.m21, m.m32), rmul(m.m22, m.m31))),
    )
}

/// The 4x4 identity value.
pub open spec fn m4_id() -> Mat4Val {
    Mat4Val {
        m11: rone(),
        m12: rzero(),
        m13: rzero(),
        m14: rzero(),
        m21: rzero(),
        m22: rone(),
        m23: rzero(),
        m24: rzero(),
        m31: rzero(),
        m32: rzero(),
        m33: rone(),
        m34: rzero(),
        m41: rzero(),
        m42: rzero(),
        m43: rzero(),
        m44: rone(),
    }
}

/// The 3x3 identity value.
pub open spec fn m3_id() -> Mat3Val {
    Mat3Val {
        m11: rone(),
        m12: rzero(),
        m13: rzero(),
        m21: rzero(),
        m22: rone(),
        m23: rzero(),
        m31: rzero(),
        m32: rzero(),
        m33: rone(),
    }
}

pub open spec fn iabs(x: int) -> int {
    if x < 0 {
        -x
    } else {
        x
    }
}

/// Sufficient condition for `dot4` to succeed: the common denominator and the
/// scaled numerator terms all stay within `i64` before reduction.
pub open spec fn sdot4_fits(
    a0: Ratio,
    a1: Ratio,
    a2: Ratio,
    a3: Ratio,
    b0: Ratio,
    b1: Ratio,
    b2: Ratio,
    b3: Ratio,
) -> bool {
    let t0 = a0.n * b0.n;
    let t1 = a1.n * b1.n;
    let t2 = a2.n * b2.n;
    let t3 = a3.n * b3.n;
    let d0 = a0.d * b0.d;
    let d1 = a1.d * b1.d;
    let d2 = a2.d * b2.d;
    let d3 = a3.d * b3.d;
    &&& ((d0 * d1) * d2) * d3 <= i64::MAX as int
    &&& iabs(t0 * (d1 * (d2 * d3))) + iabs(t1 * (d0 * (d2 * d3))) + iabs(t2 * (d0 * (d1 * d3)))
        + iabs(t3 * (d0 * (d1 * d2))) <= i64::MAX as int
}

/// Sufficient condition for `dot3` to succeed.
pub open spec fn sdot3_fits(
    a0: Ratio,
    a1: Ratio,
    a2: Ratio,
    b0: Ratio,
    b1: Ratio,
    b2: Ratio,
) -> bool {
    sdot4_fits(a0, a1, a2, rzero(), b0, b1, b2, rzero())
}

/// Exact four-term inner product over a common denominator.
pub fn dot4(a0: Rat, a1: Rat, a2: Rat, a3: Rat, b0: Rat, b1: Rat, b2: Rat, b3: Rat) -> (r: Option<
    Rat,
>)
    requires
        rwf(a0@) && rwf(a1@) && rwf(a2@) && rwf(a3@),
        rwf(b0@) && rwf(b1@) && rwf(b2@) && rwf(b3@),
    ensures
        r matches Some(q) ==> rwf(q@) && req(q@, sdot4(a0@, a1@, a2@, a3@, b0@, b1@, b2@, b3@)),
        r matches Some(q) ==> ({
            let t0 = a0@.n * b0@.n;
            let t1 = a1@.n * b1@.n;
            let t2 = a2@.n * b2@.n;
            let t3 = a3@.n * b3@.n;
            let d0 = a0@.d * b0@.d;
            let d1 = a1@.d * b1@.d;
            let d2 = a2@.d * b2@.d;
            let d3 = a3@.d * b3@.d;
            &&& q@.d <= ((d0 * d1) * d2) * d3
            &&& -(iabs(t0 * (d1 * (d2 * d3))) + iabs(t1 * (d0 * (d2 * d3))) + iabs(t2 * (d0 * (d1
                * d3))) + iabs(t3 * (d0 * (d1 * d2)))) <= q@.n <= iabs(t0 * (d1 * (d2 * d3)))
                + iabs(t1 * (d0 * (d2 * d3))) + iabs(t2 * (d0 * (d1 * d3))) + iabs(t3 * (d0 * (d1
                * d2)))
        }),
        sdot4_fits(a0@, a1@, a2@, a3@, b0@, b1@, b2@, b3@) ==> r.is_some(),
{
    let t0: i128 = mul_wide(a0.n, b0.n);
    let t1: i128 = mul_wide(a1.n, b1.n);
    let t2: i128 = mul_wide(a2.n, b2.n);
    let t3: i128 = mul_wide(a3.n, b3.n);
    let d0: i128 = mul_wide(a0.d, b0.d);
    let d1: i128 = mul_wide(a1.d, b1.d);
    let d2: i128 = mul_wide(a2.d, b2.d);
    let d3: i128 = mul_wide(a3.d, b3.d);
    proof {
        lemma_dot4_dens(a0@, a1@, a2@, a3@, b0@, b1@, b2@, b3@);
    }
    // Common denominator, and for each term the product of the other three
    // denominators.
    let d23: i128 = match d2.checked_mul(d3) {
        Some(v) => v,
        None => {
            proof {
                if sdot4_fits(a0@, a1@, a2@, a3@, b0@, b1@, b2@, b3@) {
                    lemma_dot4_fits_parts(a0@, a1@, a2@, a3@, b0@, b1@, b2@, b3@);
                }
            }
            return None;
        },
    };
    let d13: i128 = match d1.checked_mul(d3) {
        Some(v) => v,
        None => {
            proof {
                if sdot4_fits(a0@, a1@, a2@, a3@, b0@, b1@, b2@, b3@) {
                    lemma_dot4_fits_parts(a0@, a1@, a2@, a3@, b0@, b1@, b2@, b3@);
                }
            }
            return None;
        },
    };
    let d12: i128 = match d1.checked_mul(d2) {
        Some(v) => v,
        None => {
            proof {
                if sdot4_fits(a0@, a1@, a2@, a3@, b0@, b1@, b2@, b3@) {
                    lemma_dot4_fits_parts(a0@, a1@, a2@, a3@, b0@, b1@, b2@, b3@);
                }
            }
            return None;
        },
    };
    let f0: i128 = match d1.checked_mul(d23) {
        Some(v) => v,
        None => {
            proof {
                if sdot4_fits(a0@, a1@, a2@, a3@, b0@, b1@, b2@, b3@) {
                    lemma_dot4_fits_parts(a0@, a1@, a2@, a3@, b0@, b1@, b2@, b3@);
                }
            }
            return None;
        },
    };
    let f1: i128 = match d0.checked_mul(d23) {
        Some(v) => v,
        None => {
            proof {
                if sdot4_fits(a0@, a1@, a2@, a3@, b0@, b1@, b2@, b3@) {
                    lemma_dot4_fits_parts(a0@, a1@, a2@, a3@, b0@, b1@, b2@, b3@);
                }
            }
            return None;
        },
    };
    let f2: i128 = match d0.checked_mul(d13) {
        Some(v) => v,
        None => {
            proof {
                if sdot4_fits(a0@, a1@, a2@, a3@, b0@, b1@, b2@, b3@) {
                    lemma_dot4_fits_parts(a0@, a1@, a2@, a3@, b0@, b1@, b2@, b3@);
                }
            }
            return None;
        },
    };
    let f3: i128 = match d0.checked_mul(d12) {
        Some(v) => v,
        None => {
            proof {
                if sdot4_fits(a0@, a1@, a2@, a3@, b0@, b1@, b2@, b3@) {
                    lemma_dot4_fits_parts(a0@, a1@, a2@, a3@, b0@, b1@, b2@, b3@);
                }
            }
            return None;
        },
    };
    let dd: i128 = match d0.checked_mul(f0) {
        Some(v) => v,
        None => {
            proof {
                if sdot4_fits(a0@, a1@, a2@, a3@, b0@, b1@, b2@, b3@) {
                    lemma_dot4_fits_parts(a0@, a1@, a2@, a3@, b0@, b1@, b2@, b3@);
                }
            }
            return None;
        },
    };
    let n0: i128 = match t0.checked_mul(f0) {
        Some(v) => v,
        None => {
            proof {
                if sdot4_fits(a0@, a1@, a2@, a3@, b0@, b1@, b2@, b3@) {
                    lemma_dot4_fits_parts(a0@, a1@, a2@, a3@, b0@, b1@, b2@, b3@);
                }
            }
            return None;
        },
    };
    let n1: i128 = match t1.checked_mul(f1) {
        Some(v) => v,
        None => {
            proof {
                if sdot4_fits(a0@, a1@, a2@, a3@, b0@, b1@, b2@, b3@) {
                    lemma_dot4_fits_parts(a0@, a1@, a2@, a3@, b0@, b1@, b2@, b3@);
                }
            }
            return None;
        },
    };
    let n2: i128 = match t2.checked_mul(f2) {
        Some(v) => v,
        None => {
            proof {
                if sdot4_fits(a0@, a1@, a2@, a3@, b0@, b1@, b2@, b3@) {
                    lemma_dot4_fits_parts(a0@, a1@, a2@, a3@, b0@, b1@, b2@, b3@);
                }
            }
            return None;
        },
    };
    let n3: i128 = match t3.checked_mul(f3) {
        Some(v) => v,
        None => {
            proof {
                if sdot4_fits(a0@, a1@, a2@, a3@, b0@, b1@, b2@, b3@) {
                    lemma_dot4_fits_parts(a0@, a1@, a2@, a3@, b0@, b1@, b2@, b3@);
                }
            }
            return None;
        },
    };
    let n01: i128 = match n0.checked_add(n1) {
        Some(v) => v,
        None => {
            proof {
                if sdot4_fits(a0@, a1@, a2@, a3@, b0@, b1@, b2@, b3@) {
                    lemma_dot4_fits_parts(a0@, a1@, a2@, a3@, b0@, b1@, b2@, b3@);
                }
            }
            return None;
        },
    };
    let n012: i128 = match n01.checked_add(n2) {
        Some(v) => v,
        None => {
            proof {
                if sdot4_fits(a0@, a1@, a2@, a3@, b0@, b1@, b2@, b3@) {
                    lemma_dot4_fits_parts(a0@, a1@, a2@, a3@, b0@, b1@, b2@, b3@);
                }
            }
            return None;
        },
    };
    let num: i128 = match n012.checked_add(n3) {
        Some(v) => v,
        None => {
            proof {
                if sdot4_fits(a0@, a1@, a2@, a3@, b0@, b1@, b2@, b3@) {
                    lemma_dot4_fits_parts(a0@, a1@, a2@, a3@, b0@, b1@, b2@, b3@);
                }
            }
            return None;
        },
    };
    proof {
        lemma_dot4_value(a0@, a1@, a2@, a3@, b0@, b1@, b2@, b3@);
        if sdot4_fits(a0@, a1@, a2@, a3@, b0@, b1@, b2@, b3@) {
            lemma_dot4_fits_parts(a0@, a1@, a2@, a3@, b0@, b1@, b2@, b3@);
        }
    }
    let r = reduce128(num, dd);
    proof {
        if let Some(q) = r {
            lemma_req_trans(
                q@,
                Ratio { n: num as int, d: dd as int },
                sdot4(a0@, a1@, a2@, a3@, b0@, b1@, b2@, b3@),
            );
            assert(n0 as int == (a0@.n * b0@.n) * ((a1@.d * b1@.d) * ((a2@.d * b2@.d) * (a3@.d
                * b3@.d))));
            assert(n1 as int == (a1@.n * b1@.n) * ((a0@.d * b0@.d) * ((a2@.d * b2@.d) * (a3@.d
                * b3@.d))));
            assert(n2 as int == (a2@.n * b2@.n) * ((a0@.d * b0@.d) * ((a1@.d * b1@.d) * (a3@.d
                * b3@.d))));
            assert(n3 as int == (a3@.n * b3@.n) * ((a0@.d * b0@.d) * ((a1@.d * b1@.d) * (a2@.d
                * b2@.d))));
            assert(num as int == n0 as int + n1 as int + n2 as int + n3 as int);
            let d0v = a0@.d * b0@.d;
            let d1v = a1@.d * b1@.d;
            let d2v = a2@.d * b2@.d;
            let d3v = a3@.d * b3@.d;
            lemma_assoc(d0v * d1v, d2v, d3v);
            lemma_assoc(d0v, d1v, d2v * d3v);
            assert(dd as int == ((d0v * d1v) * d2v) * d3v);
            assert(-(iabs(n0 as int) + iabs(n1 as int) + iabs(n2 as int) + iabs(n3 as int))
                <= num as int <= iabs(n0 as int) + iabs(n1 as int) + iabs(n2 as int) + iabs(
                n3 as int,
            ));
        }
    }
    r
}

/// The per-term denominators of a dot product are positive and their partial
/// products never shrink.
proof fn lemma_dot4_dens(
    a0: Ratio,
    a1: Ratio,
    a2: Ratio,
    a3: Ratio,
    b0: Ratio,
    b1: Ratio,
    b2: Ratio,
    b3: Ratio,
)
    requires
        rwf(a0) && rwf(a1) && rwf(a2) && rwf(a3),
        rwf(b0) && rwf(b1) && rwf(b2) && rwf(b3),
    ensures
        1 <= a0.d * b0.d,
        1 <= a1.d * b1.d,
        1 <= a2.d * b2.d,
        1 <= a3.d * b3.d,
{
    assert(1 <= a0.d * b0.d && 1 <= a1.d * b1.d && 1 <= a2.d * b2.d && 1 <= a3.d * b3.d)
        by (nonlinear_arith)
        requires
            1 <= a0.d && 1 <= b0.d && 1 <= a1.d && 1 <= b1.d,
            1 <= a2.d && 1 <= b2.d && 1 <= a3.d && 1 <= b3.d,
    ;
}

/// Under `sdot4_fits`, every intermediate of the fused dot product stays in
/// range.
proof fn lemma_dot4_fits_parts(
    a0: Ratio,
    a1: Ratio,
    a2: Ratio,
    a3: Ratio,
    b0: Ratio,
    b1: Ratio,
    b2: Ratio,
    b3: Ratio,
)
    requires
        rwf(a0) && rwf(a1) && rwf(a2) && rwf(a3),
        rwf(b0) && rwf(b1) && rwf(b2) && rwf(b3),
        sdot4_fits(a0, a1, a2, a3, b0, b1, b2, b3),
    ensures
        ({
            let t0 = a0.n * b0.n;
            let t1 = a1.n * b1.n;
            let t2 = a2.n * b2.n;
            let t3 = a3.n * b3.n;
            let d0 = a0.d * b0.d;
            let d1 = a1.d * b1.d;
            let d2 = a2.d * b2.d;
            let d3 = a3.d * b3.d;
            &&& d2 * d3 <= i64::MAX as int
            &&& d1 * d3 <= i64::MAX as int
            &&& d1 * d2 <= i64::MAX as int
            &&& d1 * (d2 * d3) <= i64::MAX as int
            &&& d0 * (d2 * d3) <= i64::MAX as int
            &&& d0 * (d1 * d3) <= i64::MAX as int
            &&& d0 * (d1 * d2) <= i64::MAX as int
            &&& d0 * (d1 * (d2 * d3)) <= i64::MAX as int
            &&& -(i64::MAX as int) <= t0 * (d1 * (d2 * d3)) <= i64::MAX as int
            &&& -(i64::MAX as int) <= t1 * (d0 * (d2 * d3)) <= i64::MAX as int
            &&& -(i64::MAX as int) <= t2 * (d0 * (d1 * d3)) <= i64::MAX as int
            &&& -(i64::MAX as int) <= t3 * (d0 * (d1 * d2)) <= i64::MAX as int
            &&& -(i64::MAX as int) <= t0 * (d1 * (d2 * d3)) + t1 * (d0 * (d2 * d3)) <= i64::MAX
                as int
            &&& -(i64::MAX as int) <= t0 * (d1 * (d2 * d3)) + t1 * (d0 * (d2 * d3)) + t2 * (d0 * (
            d1 * d3)) <= i64::MAX as int
            &&& -(i64::MAX as int) <= t0 * (d1 * (d2 * d3)) + t1 * (d0 * (d2 * d3)) + t2 * (d0 * (
            d1 * d3)) + t3 * (d0 * (d1 * d2)) <= i64::MAX as int
            &&& d0 * (d1 * (d2 * d3)) == ((d0 * d1) * d2) * d3
        }),
{
    let t0 = a0.n * b0.n;
    let t1 = a1.n * b1.n;
    let t2 = a2.n * b2.n;
    let t3 = a3.n * b3.n;
    let d0 = a0.d * b0.d;
    let d1 = a1.d * b1.d;
    let d2 = a2.d * b2.d;
    let d3 = a3.d * b3.d;
    lemma_dot4_dens(a0, a1, a2, a3, b0, b1, b2, b3);
    assert(d0 * (d1 * (d2 * d3)) == ((d0 * d1) * d2) * d3) by (nonlinear_arith);
    assert(d2 * d3 <= d0 * (d1 * (d2 * d3)) && d1 * d3 <= d0 * (d1 * (d2 * d3)) && d1 * d2 <= d0 * (
    d1 * (d2 * d3)) && d1 * (d2 * d3) <= d0 * (d1 * (d2 * d3)) && d0 * (d2 * d3) <= d0 * (d1 * (d2
        * d3)) && d0 * (d1 * d3) <= d0 * (d1 * (d2 * d3)) && d0 * (d1 * d2) <= d0 * (d1 * (d2 * d3))
        && 1 <= d2 * d3 && 1 <= d1 * d3 && 1 <= d1 * d2) by (nonlinear_arith)
        requires
            1 <= d0 && 1 <= d1 && 1 <= d2 && 1 <= d3,
    ;
}

/// Multiplication distributes over a two-term sum.
pub(crate) proof fn lemma_distrib2(x: int, y: int, w: int)
    ensures
        (x + y) * w == x * w + y * w,
{
    assert((x + y) * w == x * w + y * w) by (nonlinear_arith);
}

/// Multiplication distributes over a three-term sum.
pub(crate) proof fn lemma_distrib3(x: int, y: int, z: int, w: int)
    ensures
        (x + y + z) * w == x * w + y * w + z * w,
{
    assert((x + y + z) * w == x * w + y * w + z * w) by (nonlinear_arith);
}

/// Multiplication is associative.
pub(crate) proof fn lemma_assoc(x: int, y: int, z: int)
    ensures
        (x * y) * z == x * (y * z),
{
    assert((x * y) * z == x * (y * z)) by (nonlinear_arith);
}

/// The fused integer form of the dot product equals the nested rational
/// formula over the common denominator.
proof fn lemma_dot4_value(
    a0: Ratio,
    a1: Ratio,
    a2: Ratio,
    a3: Ratio,
    b0: Ratio,
    b1: Ratio,
    b2: Ratio,
    b3: Ratio,
)
    requires
        rwf(a0) && rwf(a1) && rwf(a2) && rwf(a3),
        rwf(b0) && rwf(b1) && rwf(b2) && rwf(b3),
    ensures
        ({
            let t0 = a0.n * b0.n;
            let t1 = a1.n * b1.n;
            let t2 = a2.n * b2.n;
            let t3 = a3.n * b3.n;
            let d0 = a0.d * b0.d;
            let d1 = a1.d * b1.d;
            let d2 = a2.d * b2.d;
            let d3 = a3.d * b3.d;
            let num = t0 * (d1 * (d2 * d3)) + t1 * (d0 * (d2 * d3)) + t2 * (d0 * (d1 * d3)) + t3 * (
            d0 * (d1 * d2));
            let dd = d0 * (d1 * (d2 * d3));
            req(Ratio { n: num, d: dd }, sdot4(a0, a1, a2, a3, b0, b1, b2, b3)) && 1 <= dd
        }),
{
    let t0 = a0.n * b0.n;
    let t1 = a1.n * b1.n;
    let t2 = a2.n * b2.n;
    let t3 = a3.n * b3.n;
    let d0 = a0.d * b0.d;
    let d1 = a1.d * b1.d;
    let d2 = a2.d * b2.d;
    let d3 = a3.d * b3.d;
    let num = t0 * (d1 * (d2 * d3)) + t1 * (d0 * (d2 * d3)) + t2 * (d0 * (d1 * d3)) + t3 * (d0 * (
    d1 * d2));
    let dd = d0 * (d1 * (d2 * d3));
    let s = sdot4(a0, a1, a2, a3, b0, b1, b2, b3);
    lemma_dot4_dens(a0, a1, a2, a3, b0, b1, b2, b3);
    assert(1 <= dd) by (nonlinear_arith)
        requires
            1 <= d0 && 1 <= d1 && 1 <= d2 && 1 <= d3,
            dd == d0 * (d1 * (d2 * d3)),
    ;
    // The nested rational sum has denominator ((d0*d1)*d2)*d3 and numerator
    // the cofactor-scaled sum; expand step by step.
    assert(s.n == ((t0 * d1 + t1 * d0) * d2 + t2 * (d0 * d1)) * d3 + t3 * ((d0 * d1) * d2));
    assert(s.d == ((d0 * d1) * d2) * d3);
    lemma_distrib2(t0 * d1, t1 * d0, d2);
    lemma_assoc(t0, d1, d2);
    lemma_assoc(t1, d0, d2);
    assert((t0 * d1 + t1 * d0) * d2 + t2 * (d0 * d1) == t0 * (d1 * d2) + t1 * (d0 * d2) + t2 * (d0
        * d1));
    lemma_distrib3(t0 * (d1 * d2), t1 * (d0 * d2), t2 * (d0 * d1), d3);
    lemma_assoc(t0, d1 * d2, d3);
    lemma_assoc(d1, d2, d3);
    lemma_assoc(t1, d0 * d2, d3);
    lemma_assoc(d0, d2, d3);
    lemma_assoc(t2, d0 * d1, d3);
    lemma_assoc(d0, d1, d3);
    lemma_assoc(t3, d0 * d1, d2);
    lemma_assoc(d0, d1, d2);
    assert(s.n == num);
    lemma_assoc(d0 * d1, d2, d3);
    lemma_assoc(d0, d1, d2 * d3);
    assert(s.d == dd);
    assert(req(Ratio { n: num, d: dd }, s));
}

/// What reduction guarantees about a computed three-term inner product: the
/// representation never grows past the fused raw form.
pub open spec fn dot3_rep_bound(
    q: Ratio,
    a0: Ratio,
    a1: Ratio,
    a2: Ratio,
    b0: Ratio,
    b1: Ratio,
    b2: Ratio,
) -> bool {
    let t0 = a0.n * b0.n;
    let t1 = a1.n * b1.n;
    let t2 = a2.n * b2.n;
    let d0 = a0.d * b0.d;
    let d1 = a1.d * b1.d;
    let d2 = a2.d * b2.d;
    &&& q.d <= (d0 * d1) * d2
    &&& -(iabs(t0 * (d1 * d2)) + iabs(t1 * (d0 * d2)) + iabs(t2 * (d0 * d1))) <= q.n <= iabs(
        t0 * (d1 * d2),
    ) + iabs(t1 * (d0 * d2)) + iabs(t2 * (d0 * d1))
}

/// Exact three-term inner product.
pub fn dot3(a0: Rat, a1: Rat, a2: Rat, b0: Rat, b1: Rat, b2: Rat) -> (r: Option<Rat>)
    requires
        rwf(a0@) && rwf(a1@) && rwf(a2@),
        rwf(b0@) && rwf(b1@) && rwf(b2@),
    ensures
        r matches Some(q) ==> rwf(q@) && req(q@, sdot3(a0@, a1@, a2@, b0@, b1@, b2@)),
        r matches Some(q) ==> dot3_rep_bound(q@, a0@, a1@, a2@, b0@, b1@, b2@),
        sdot3_fits(a0@, a1@, a2@, b0@, b1@, b2@) ==> r.is_some(),
{
    let z = Rat::zero();
    let r = dot4(a0, a1, a2, z, b0, b1, b2, z);
    proof {
        let s3 = sdot3(a0@, a1@, a2@, b0@, b1@, b2@);
        let m = rmul(rzero(), rzero());
        let s4 = sdot4(a0@, a1@, a2@, rzero(), b0@, b1@, b2@, rzero());
        assert(m.n == 0 && m.d == 1);
        assert(s4 == radd(s3, m));
        assert(s4.n == s3.n * 1 + 0 * s3.d);
        assert(s4.n == s3.n && s4.d == s3.d);
        assert(s4 == s3);
        if let Some(q) = r {
            let t0 = a0@.n * b0@.n;
            let t1 = a1@.n * b1@.n;
            let t2 = a2@.n * b2@.n;
            let d0 = a0@.d * b0@.d;
            let d1 = a1@.d * b1@.d;
            let d2 = a2@.d * b2@.d;
            assert(((d0 * d1) * d2) * (1 * 1) == (d0 * d1) * d2) by (nonlinear_arith);
            assert(t0 * (d1 * (d2 * (1 * 1))) == t0 * (d1 * d2)) by (nonlinear_arith);
            assert(t1 * (d0 * (d2 * (1 * 1))) == t1 * (d0 * d2)) by (nonlinear_arith);
            assert(t2 * (d0 * (d1 * (1 * 1))) == t2 * (d0 * d1)) by (nonlinear_arith);
            assert((0 * 0) * (d0 * (d1 * d2)) == 0) by (nonlinear_arith);
        }
    }
    r
}

/// The inner product respects value equality in all positions.
pub proof fn lemma_sdot4_congruence(
    a0: Ratio,
    a1: Ratio,
    a2: Ratio,
    a3: Ratio,
    b0: Ratio,
    b1: Ratio,
    b2: Ratio,
    b3: Ratio,
    c0: Ratio,
    c1: Ratio,
    c2: Ratio,
    c3: Ratio,
    e0: Ratio,
    e1: Ratio,
    e2: Ratio,
    e3: Ratio,
)
    requires
        req(a0, c0) && req(a1, c1) && req(a2, c2) && req(a3, c3),
        req(b0, e0) && req(b1, e1) && req(b2, e2) && req(b3, e3),
    ensures
        req(sdot4(a0, a1, a2, a3, b0, b1, b2, b3), sdot4(c0, c1, c2, c3, e0, e1, e2, e3)),
{
    lemma_req_mul(a0, b0, c0, e0);
    lemma_req_mul(a1, b1, c1, e1);
    lemma_req_mul(a2, b2, c2, e2);
    lemma_req_mul(a3, b3, c3, e3);
    lemma_req_add(rmul(a0, b0), rmul(a1, b1), rmul(c0, e0), rmul(c1, e1));
    lemma_req_add(
        radd(rmul(a0, b0), rmul(a1, b1)),
        rmul(a2, b2),
        radd(rmul(c0, e0), rmul(c1, e1)),
        rmul(c2, e2),
    );
    lemma_req_add(
        radd(radd(rmul(a0, b0), rmul(a1, b1)), rmul(a2, b2)),
        rmul(a3, b3),
        radd(radd(rmul(c0, e0), rmul(c1, e1)), rmul(c2, e2)),
        rmul(c3, e3),
    );
}

/// The structural denominator of an inner product of well-formed values is
/// positive.
pub proof fn lemma_sdot4_den_pos_pub(
    a0: Ratio,
    a1: Ratio,
    a2: Ratio,
    a3: Ratio,
    b0: Ratio,
    b1: Ratio,
    b2: Ratio,
    b3: Ratio,
)
    requires
        a0.d >= 1 && a1.d >= 1 && a2.d >= 1 && a3.d >= 1,
        b0.d >= 1 && b1.d >= 1 && b2.d >= 1 && b3.d >= 1,
    ensures
        sdot4(a0, a1, a2, a3, b0, b1, b2, b3).d >= 1,
{
    assert((((a0.d * b0.d) * (a1.d * b1.d)) * (a2.d * b2.d)) * (a3.d * b3.d) >= 1)
        by (nonlinear_arith)
        requires
            a0.d >= 1 && a1.d >= 1 && a2.d >= 1 && a3.d >= 1,
            b0.d >= 1 && b1.d >= 1 && b2.d >= 1 && b3.d >= 1,
    ;
}

/// Sufficient condition for `mat4_vec_mul` to succeed.
pub open spec fn m4v4_fits(m: Mat4Val, v: Vec4Val) -> bool {
    &&& sdot4_fits(m.m11, m.m12, m.m13, m.m14, v.x, v.y, v.z, v.w)
    &&& sdot4_fits(m.m21, m.m22, m.m23, m.m24, v.x, v.y, v.z, v.w)
    &&& sdot4_fits(m.m31, m.m32, m.m33, m.m34, v.x, v.y, v.z, v.w)
    &&& sdot4_fits(m.m41, m.m42, m.m43, m.m44, v.x, v.y, v.z, v.w)
}

/// Matrix times homogeneous vector, exactly.
pub fn mat4_vec_mul(m: &Mat4, v: &Vec4) -> (r: Option<Vec4>)
    requires
        mat4_wf(m@),
        vec4_wf(v@),
    ensures
        r matches Some(o) ==> vec4_wf(o@) && vec4_eq(o@, m4_mul_v4(m@, v@)),
        m4v4_fits(m@, v@) ==> r.is_some(),
{
    let x = match dot4(m.m11, m.m12, m.m13, m.m14, v.x, v.y, v.z, v.w) {
        Some(q) => q,
        None => {
            return None;
        },
    };
    let y = match dot4(m.m21, m.m22, m.m23, m.m24, v.x, v.y, v.z, v.w) {
        Some(q) => q,
        None => {
            return None;
        },
    };
    let z = match dot4(m.m31, m.m32, m.m33, m.m34, v.x, v.y, v.z, v.w) {
        Some(q) => q,
        None => {
            return None;
        },
    };
    let w = match dot4(m.m41, m.m42, m.m43, m.m44, v.x, v.y, v.z, v.w) {
        Some(q) => q,
        None => {
            return None;
        },
    };
    Some(Vec4 { x, y, z, w })
}

/// Sufficient condition for `mat4_mul` to succeed.
pub open spec fn m4m4_fits(a: Mat4Val, b: Mat4Val) -> bool {
    &&& sdot4_fits(a.m11, a.m12, a.m13, a.m14, b.m11, b.m21, b.m31, b.m41)
    &&& sdot4_fits(a.m11, a.m12, a.m13, a.m14, b.m12, b.m22, b.m32, b.m42)
    &&& sdot4_fits(a.m11, a.m12, a.m13, a.m14, b.m13, b.m23, b.m33, b.m43)
    &&& sdot4_fits(a.m11, a.m12, a.m13, a.m14, b.m14, b.m24, b.m34, b.m44)
    &&& sdot4_fits(a.m21, a.m22, a.m23, a.m24, b.m11, b.m21, b.m31, b.m41)
    &&& sdot4_fits(a.m21, a.m22, a.m23, a.m24, b.m12, b.m22, b.m32, b.m42)
    &&& sdot4_fits(a.m21, a.m22, a.m23, a.m24, b.m13, b.m23, b.m33, b.m43)
    &&& sdot4_fits(a.m21, a.m22, a.m23, a.m24, b.m14, b.m24, b.m34, b.m44)
    &&& sdot4_fits(a.m31, a.m32, a.m33, a.m34, b.m11, b.m21, b.m31, b.m41)
    &&& sdot4_fits(a.m31, a.m32, a.m33, a.m34, b.m12, b.m22, b.m32, b.m42)
    &&& sdot4_fits(a.m31, a.m32, a.m33, a.m34, b.m13, b.m23, b.m33, b.m43)
    &&& sdot4_fits(a.m31, a.m32, a.m33, a.m34, b.m14, b.m24, b.m34, b.m44)
    &&& sdot4_fits(a.m41, a.m42, a.m43, a.m44, b.m11, b.m21, b.m31, b.m41)
    &&& sdot4_fits(a.m41, a.m42, a.m43, a.m44, b.m12, b.m22, b.m32, b.m42)
    &&& sdot4_fits(a.m41, a.m42, a.m43, a.m44, b.m13, b.m23, b.m33, b.m43)
    &&& sdot4_fits(a.m41, a.m42, a.m43, a.m44, b.m14, b.m24, b.m34, b.m44)
}

/// Product of two 4x4 matrices, exactly.
pub fn mat4_mul(a: &Mat4, b: &Mat4) -> (r: Option<Mat4>)
    requires
        mat4_wf(a@),
        mat4_wf(b@),
    ensures
        r matches Some(o) ==> mat4_wf(o@) && mat4_eq(o@, m4_mul_m4(a@, b@)),
        m4m4_fits(a@, b@) ==> r.is_some(),
{
    let m11 = match dot4(a.m11, a.m12, a.m13, a.m14, b.m11, b.m21, b.m31, b.m41) {
        Some(q) => q,
        None => {
            return None;
        },
    };
    let m12 = match dot4(a.m11, a.m12, a.m13, a.m14, b.m12, b.m22, b.m32, b.m42) {
        Some(q) => q,
        None => {
            return None;
        },
    };
    let m13 = match dot4(a.m11, a.m12, a.m13, a.m14, b.m13, b.m23, b.m33, b.m43) {
        Some(q) => q,
        None => {
            return None;
        },
    };
    let m14 = match dot4(a.m11, a.m12, a.m13, a.m14, b.m14, b.m24, b.m34, b.m44) {
        Some(q) => q,
        None => {
            return None;
        },
    };
    let m21 = match dot4(a.m21, a.m22, a.m23, a.m24, b.m11, b.m21, b.m31, b.m41) {
        Some(q) => q,
        None => {
            return None;
        },
    };
    let m22 = match dot4(a.m21, a.m22, a.m23, a.m24, b.m12, b.m22, b.m32, b.m42) {
        Some(q) => q,
        None => {
            return None;
        },
    };
    let m23 = match dot4(a.m21, a.m22, a.m23, a.m24, b.m13, b.m23, b.m33, b.m43) {
        Some(q) => q,
        None => {
            return None;
        },
    };
    let m24 = match dot4(a.m21, a.m22, a.m23, a.m24, b.m14, b.m24, b.m34, b.m44) {
        Some(q) => q,
        None => {
            return None;
        },
    };
    let m31 = match dot4(a.m31, a.m32, a.m33, a.m34, b.m11, b.m21, b.m31, b.m41) {
        Some(q) => q,
        None => {
            return None;
        },
    };
    let m32 = match dot4(a.m31, a.m32, a.m33, a.m34, b.m12, b.m22, b.m32, b.m42) {
        Some(q) => q,
        None => {
            return None;
        },
    };
    let m33 = match dot4(a.m31, a.m32, a.m33, a.m34, b.m13, b.m23, b.m33, b.m43) {
        Some(q) => q,
        None => {
            return None;
        },
    };
    let m34 = match dot4(a.m31, a.m32, a.m33, a.m34, b.m14, b.m24, b.m34, b.m44) {
        Some(q) => q,
        None => {
            return None;
        },
    };
    let m41 = match dot4(a.m41, a.m42, a.m43, a.m44, b.m11, b.m21, b.m31, b.m41) {
        Some(q) => q,
        None => {
            return None;
        },
    };
    let m42 = match dot4(a.m41, a.m42, a.m43, a.m44, b.m12, b.m22, b.m32, b.m42) {
        Some(q) => q,
        None => {
            return None;
        },
    };
    let m43 = match dot4(a.m41, a.m42, a.m43, a.m44, b.m13, b.m23, b.m33, b.m43) {
        Some(q) => q,
        None => {
            return None;
        },
    };
    let m44 = match dot4(a.m41, a.m42, a.m43, a.m44, b.m14, b.m24, b.m34, b.m44) {
        Some(q) => q,
        None => {
            return None;
        },
    };
    Some(
        Mat4 {
            m11,
            m12,
            m13,
            m14,
            m21,
            m22,
            m23,
            m24,
            m31,
            m32,
            m33,
            m34,
            m41,
            m42,
            m43,
            m44,
        },
    )
}

/// Sufficient condition for `mat3_mul` to succeed.
pub open spec fn m3m3_fits(a: Mat3Val, b: Mat3Val) -> bool {
    &&& sdot3_fits(a.m11, a.m12, a.m13, b.m11, b.m21, b.m31)
    &&& sdot3_fits(a.m11, a.m12, a.m13, b.m12, b.m22, b.m32)
    &&& sdot3_fits(a.m11, a.m12, a.m13, b.m13, b.m23, b.m33)
    &&& sdot3_fits(a.m21, a.m22, a.m23, b.m11, b.m21, b.m31)
    &&& sdot3_fits(a.m21, a.m22, a.m23, b.m12, b.m22, b.m32)
    &&& sdot3_fits(a.m21, a.m22, a.m23, b.m13, b.m23, b.m33)
    &&& sdot3_fits(a.m31, a.m32, a.m33, b.m11, b.m21, b.m31)
    &&& sdot3_fits(a.m31, a.m32, a.m33, b.m12, b.m22, b.m32)
    &&& sdot3_fits(a.m31, a.m32, a.m33, b.m13, b.m23, b.m33)
}

/// Product of two 3x3 matrices, exactly.
pub fn mat3_mul(a: &Mat3, b: &Mat3) -> (r: Option<Mat3>)
    requires
        mat3_wf(a@),
        mat3_wf(b@),
    ensures
        r matches Some(o) ==> mat3_wf(o@) && mat3_eq(o@, m3_mul_m3(a@, b@)),
        r matches Some(o) ==> ({
            &&& dot3_rep_bound(o@.m11, a@.m11, a@.m12, a@.m13, b@.m11, b@.m21, b@.m31)
            &&& dot3_rep_bound(o@.m12, a@.m11, a@.m12, a@.m13, b@.m12, b@.m22, b@.m32)
            &&& dot3_rep_bound(o@.m13, a@.m11, a@.m12, a@.m13, b@.m13, b@.m23, b@.m33)
            &&& dot3_rep_bound(o@.m21, a@.m21, a@.m22, a@.m23, b@.m11, b@.m21, b@.m31)
            &&& dot3_rep_bound(o@.m22, a@.m21, a@.m22, a@.m23, b@.m12, b@.m22, b@.m32)
            &&& dot3_rep_bound(o@.m23, a@.m21, a@.m22, a@.m23, b@.m13, b@.m23, b@.m33)
            &&& dot3_rep_bound(o@.m31, a@.m31, a@.m32, a@.m33, b@.m11, b@.m21, b@.m31)
            &&& dot3_rep_bound(o@.m32, a@.m31, a@.m32, a@.m33, b@.m12, b@.m22, b@.m32)
            &&& dot3_rep_bound(o@.m33, a@.m31, a@.m32, a@.m33, b@.m13, b@.m23, b@.m33)
        }),
        m3m3_fits(a@, b@) ==> r.is_some(),
{
    let m11 = match dot3(a.m11, a.m12, a.m13, b.m11, b.m21, b.m31) {
        Some(q) => q,
        None => {
            return None;
        },
    };
    let m12 = match dot3(a.m11, a.m12, a.m13, b.m12, b.m22, b.m32) {
        Some(q) => q,
        None => {
            return None;
        },
    };
    let m13 = match dot3(a.m11, a.m12, a.m13, b.m13, b.m23, b.m33) {
        Some(q) => q,
        None => {
            return None;
        },
    };
    let m21 = match dot3(a.m21, a.m22, a.m23, b.m11, b.m21, b.m31) {
        Some(q) => q,
        None => {
            return None;
        },
    };
    let m22 = match dot3(a.m21, a.m22, a.m23, b.m12, b.m22, b.m32) {
        Some(q) => q,
        None => {
            return None;
        },
    };
    let m23 = match dot3(a.m21, a.m22, a.m23, b.m13, b.m23, b.m33) {
        Some(q) => q,
        None => {
            return None;
        },
    };
    let m31 = match dot3(a.m31, a.m32, a.m33, b.m11, b.m21, b.m31) {
        Some(q) => q,
        None => {
            return None;
        },
    };
    let m32 = match dot3(a.m31, a.m32, a.m33, b.m12, b.m22, b.m32) {
        Some(q) => q,
        None => {
            return None;
        },
    };
    let m33 = match dot3(a.m31, a.m32, a.m33, b.m13, b.m23, b.m33) {
        Some(q) => q,
        None => {
            return None;
        },
    };
    Some(Mat3 { m11, m12, m13, m21, m22, m23, m31, m32, m33 })
}

/// The 4x4 identity matrix.
pub fn mat4_identity() -> (r: Mat4)
    ensures
        mat4_wf(r@),
        r@ == m4_id(),
{
    let o = Rat::one();
    let z = Rat::zero();
    Mat4 {
        m11: o,
        m12: z,
        m13: z,
        m14: z,
        m21: z,
        m22: o,
        m23: z,
        m24: z,
        m31: z,
        m32: z,
        m33: o,
        m34: z,
        m41: z,
        m42: z,
        m43: z,
        m44: o,
    }
}

/// The 3x3 identity matrix.
pub fn mat3_identity() -> (r: Mat3)
    ensures
        mat3_wf(r@),
        r@ == m3_id(),
{
    let o = Rat::one();
    let z = Rat::zero();
    Mat3 { m11: o, m12: z, m13: z, m21: z, m22: o, m23: z, m31: z, m32: z, m33: o }
}

/// The 3x3 zero matrix.
pub fn mat3_zero() -> (r: Mat3)
    ensures
        mat3_wf(r@),
        r@.m11 == rzero() && r@.m12 == rzero() && r@.m13 == rzero(),
        r@.m21 == rzero() && r@.m22 == rzero() && r@.m23 == rzero(),
        r@.m31 == rzero() && r@.m32 == rzero() && r@.m33 == rzero(),
{
    let z = Rat::zero();
    Mat3 { m11: z, m12: z, m13: z, m21: z, m22: z, m23: z, m31: z, m32: z, m33: z }
}

/// Componentwise sum of homogeneous vectors.
pub open spec fn v4_add(a: Vec4Val, b: Vec4Val) -> Vec4Val {
    Vec4Val { x: radd(a.x, b.x), y: radd(a.y, b.y), z: radd(a.z, b.z), w: radd(a.w, b.w) }
}

/// Sufficient condition for `vec4_add` to succeed.
pub open spec fn v4_add_fits(a: Vec4Val, b: Vec4Val) -> bool {
    &&& crate::rational::radd_fits(a.x, b.x)
    &&& crate::rational::radd_fits(a.y, b.y)
    &&& crate::rational::radd_fits(a.z, b.z)
    &&& crate::rational::radd_fits(a.w, b.w)
}

/// Componentwise addition of homogeneous vectors, exactly.
pub fn vec4_add(a: &Vec4, b: &Vec4) -> (r: Option<Vec4>)
    requires
        vec4_wf(a@),
        vec4_wf(b@),
    ensures
        r matches Some(o) ==> vec4_wf(o@) && vec4_eq(o@, v4_add(a@, b@)),
        r matches Some(o) ==> crate::rational::radd_rep_bound(o@.x, a@.x, b@.x)
            && crate::rational::radd_rep_bound(o@.y, a@.y, b@.y)
            && crate::rational::radd_rep_bound(o@.z, a@.z, b@.z)
            && crate::rational::radd_rep_bound(o@.w, a@.w, b@.w),
        v4_add_fits(a@, b@) ==> r.is_some(),
{
    let x = match rat_add(a.x, b.x) {
        Some(q) => q,
        None => {
            return None;
        },
    };
    let y = match rat_add(a.y, b.y) {
        Some(q) => q,
        None => {
            return None;
        },
    };
    let z = match rat_add(a.z, b.z) {
        Some(q) => q,
        None => {
            return None;
        },
    };
    let w = match rat_add(a.w, b.w) {
        Some(q) => q,
        None => {
            return None;
        },
    };
    Some(Vec4 { x, y, z, w })
}

} // verus!
