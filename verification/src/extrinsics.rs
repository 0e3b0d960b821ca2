//! Inversion of the camera extrinsics matrix.
//!
//! The extrinsics matrix has the rigid form `[R | t; 0 0 0 1]`. Its inverse
//! is computed exactly: the rotation block is scaled row by row to an integer
//! matrix, inverted through its adjugate and determinant, and the translation
//! column follows from the inverted block. A zero determinant reports a
//! degenerate orientation; arithmetic that leaves the representable range
//! reports that instead of wrapping.

use crate::linalg::{
    det3, lemma_assoc, lemma_distrib3, lemma_sdot4_congruence, m4_mul_v4, mat3_wf, mat4_wf, sdot4,
    vec3_wf, vec4_eq, vec4_wf, Mat3, Mat3Val, Mat4, Mat4Val, Vec3, Vec3Val, Vec4Val,
};
use crate::rational::{
    cadd, cmul, csub, lemma_radd_same_den, lemma_req_add, lemma_req_mul, lemma_req_neg,
    lemma_req_scale, lemma_req_sub, lemma_req_sym, lemma_req_trans, mul_wide, radd, rdiv,
    reduce_signed, req, rmul, rneg, rone, rsub, rwf, rzero, Rat, Ratio,
};
use vstd::prelude::*;

verus! {

/// The rigid world-to-camera transform `[R | t; 0 0 0 1]`.
pub open spec fn extrinsics_of(r: Mat3Val, t: Vec3Val) -> Mat4Val {
    Mat4Val {
        m11: r.m11,
        m12: r.m12,
        m13: r.m13,
        m14: t.x,
        m21: r.m21,
        m22: r.m22,
        m23: r.m23,
        m24: t.y,
        m31: r.m31,
        m32: r.m32,
        m33: r.m33,
        m34: t.z,
        m41: rzero(),
        m42: rzero(),
        m43: rzero(),
        m44: rone(),
    }
}

/// `s` undoes `e` on every well-formed homogeneous vector: applying `s` and
/// then `e` returns the vector unchanged.
pub open spec fn right_inverse(e: Mat4Val, s: Mat4Val) -> bool {
    forall|v: Vec4Val|
        vec4_wf(v) ==> vec4_eq(#[trigger] m4_mul_v4(e, m4_mul_v4(s, v)), v)
}

/// A rational in halves or whole units, no larger than 131072 in numerator
/// magnitude. On such entries the inversion is guaranteed not to run out of
/// range.
pub open spec fn small_rat(a: Ratio) -> bool {
    1 <= a.d <= 2 && -0x20000 <= a.n <= 0x20000
}

pub open spec fn small_mat3(m: Mat3Val) -> bool {
    &&& small_rat(m.m11) && small_rat(m.m12) && small_rat(m.m13)
    &&& small_rat(m.m21) && small_rat(m.m22) && small_rat(m.m23)
    &&& small_rat(m.m31) && small_rat(m.m32) && small_rat(m.m33)
}

pub open spec fn small_vec3(t: Vec3Val) -> bool {
    small_rat(t.x) && small_rat(t.y) && small_rat(t.z)
}

/// The structural denominator of the determinant formula is positive for
/// well-formed matrices.
proof fn lemma_det3_den_pos(m: Mat3Val)
    requires
        mat3_wf(m),
    ensures
        det3(m).d >= 1,
{
    let i1 = rsub(rmul(m.m22, m.m33), rmul(m.m23, m.m32));
    let i2 = rsub(rmul(m.m21, m.m33), rmul(m.m23, m.m31));
    let i3 = rsub(rmul(m.m21, m.m32), rmul(m.m22, m.m31));
    assert(i1.d == (m.m22.d * m.m33.d) * (m.m23.d * m.m32.d));
    assert(i1.d >= 1 && i2.d >= 1 && i3.d >= 1) by (nonlinear_arith)
        requires
            i1.d == (m.m22.d * m.m33.d) * (m.m23.d * m.m32.d),
            i2.d == (m.m21.d * m.m33.d) * (m.m23.d * m.m31.d),
            i3.d == (m.m21.d * m.m32.d) * (m.m22.d * m.m31.d),
            m.m21.d >= 1 && m.m22.d >= 1 && m.m23.d >= 1,
            m.m31.d >= 1 && m.m32.d >= 1 && m.m33.d >= 1,
    ;
    let t1 = rmul(m.m11, i1);
    let t2 = rmul(m.m12, i2);
    let t3 = rmul(m.m13, i3);
    assert(det3(m).d == (t1.d * t2.d) * t3.d);
    assert(det3(m).d >= 1) by (nonlinear_arith)
        requires
            det3(m).d == ((m.m11.d * i1.d) * (m.m12.d * i2.d)) * (m.m13.d * i3.d),
            m.m11.d >= 1 && m.m12.d >= 1 && m.m13.d >= 1,
            i1.d >= 1 && i2.d >= 1 && i3.d >= 1,
    ;
}

/// Invert the extrinsics `[R | t; 0 0 0 1]`.
///
/// `Some(Some(s))` carries the inverse; `Some(None)` reports a degenerate
/// (zero-determinant) orientation; `None` reports arithmetic out of range.
pub(crate) fn invert_core(r: &Mat3, t: &Vec3) -> (res: Option<Option<Mat4>>)
    requires
        mat3_wf(r@),
        vec3_wf(t@),
    ensures
        res matches Some(Some(s)) ==> mat4_wf(s@) && !req(det3(r@), rzero()) && right_inverse(
            extrinsics_of(r@, t@),
            s@,
        ),
        res == Some(None::<Mat4>) ==> req(det3(r@), rzero()),
        small_mat3(r@) && small_vec3(t@) ==> res.is_some(),
{
    let ghost small = small_mat3(r@) && small_vec3(t@);
    proof {
        assert(small ==> {
            &&& 1 <= (r@.m11.d * r@.m12.d) * r@.m13.d <= 8
            &&& 1 <= (r@.m21.d * r@.m22.d) * r@.m23.d <= 8
            &&& 1 <= (r@.m31.d * r@.m32.d) * r@.m33.d <= 8
            &&& -0x80000 <= (r@.m11.n * r@.m12.d) * r@.m13.d <= 0x80000
            &&& -0x80000 <= (r@.m12.n * r@.m11.d) * r@.m13.d <= 0x80000
            &&& -0x80000 <= (r@.m13.n * r@.m11.d) * r@.m12.d <= 0x80000
            &&& -0x80000 <= (r@.m21.n * r@.m22.d) * r@.m23.d <= 0x80000
            &&& -0x80000 <= (r@.m22.n * r@.m21.d) * r@.m23.d <= 0x80000
            &&& -0x80000 <= (r@.m23.n * r@.m21.d) * r@.m22.d <= 0x80000
            &&& -0x80000 <= (r@.m31.n * r@.m32.d) * r@.m33.d <= 0x80000
            &&& -0x80000 <= (r@.m32.n * r@.m31.d) * r@.m33.d <= 0x80000
            &&& -0x80000 <= (r@.m33.n * r@.m31.d) * r@.m32.d <= 0x80000
        }) by {
            if small {
                lemma_den_triple(r@.m11.d, r@.m12.d, r@.m13.d);
                lemma_den_triple(r@.m21.d, r@.m22.d, r@.m23.d);
                lemma_den_triple(r@.m31.d, r@.m32.d, r@.m33.d);
                lemma_scaled_entry_bound(r@.m11.n, r@.m12.d, r@.m13.d);
                lemma_scaled_entry_bound(r@.m12.n, r@.m11.d, r@.m13.d);
                lemma_scaled_entry_bound(r@.m13.n, r@.m11.d, r@.m12.d);
                lemma_scaled_entry_bound(r@.m21.n, r@.m22.d, r@.m23.d);
                lemma_scaled_entry_bound(r@.m22.n, r@.m21.d, r@.m23.d);
                lemma_scaled_entry_bound(r@.m23.n, r@.m21.d, r@.m22.d);
                lemma_scaled_entry_bound(r@.m31.n, r@.m32.d, r@.m33.d);
                lemma_scaled_entry_bound(r@.m32.n, r@.m31.d, r@.m33.d);
                lemma_scaled_entry_bound(r@.m33.n, r@.m31.d, r@.m32.d);
            }
        };
    }
    // Row common denominators and the row-scaled integer matrix.
    let u1: i128 = cmul(mul_wide(r.m11.d, r.m12.d), r.m13.d as i128)?;
    let u2: i128 = cmul(mul_wide(r.m21.d, r.m22.d), r.m23.d as i128)?;
    let u3: i128 = cmul(mul_wide(r.m31.d, r.m32.d), r.m33.d as i128)?;
    let n11: i128 = cmul(mul_wide(r.m11.n, r.m12.d), r.m13.d as i128)?;
    let n12: i128 = cmul(mul_wide(r.m12.n, r.m11.d), r.m13.d as i128)?;
    let n13: i128 = cmul(mul_wide(r.m13.n, r.m11.d), r.m12.d as i128)?;
    let n21: i128 = cmul(mul_wide(r.m21.n, r.m22.d), r.m23.d as i128)?;
    let n22: i128 = cmul(mul_wide(r.m22.n, r.m21.d), r.m23.d as i128)?;
    let n23: i128 = cmul(mul_wide(r.m23.n, r.m21.d), r.m22.d as i128)?;
    let n31: i128 = cmul(mul_wide(r.m31.n, r.m32.d), r.m33.d as i128)?;
    let n32: i128 = cmul(mul_wide(r.m32.n, r.m31.d), r.m33.d as i128)?;
    let n33: i128 = cmul(mul_wide(r.m33.n, r.m31.d), r.m32.d as i128)?;
    proof {
        // Each entry keeps its value over the row denominator.
        lemma_row_scale(r@.m11, r@.m12, r@.m13, n11 as int, n12 as int, n13 as int, u1 as int);
        lemma_row_scale(r@.m21, r@.m22, r@.m23, n21 as int, n22 as int, n23 as int, u2 as int);
        lemma_row_scale(r@.m31, r@.m32, r@.m33, n31 as int, n32 as int, n33 as int, u3 as int);
        assert(small ==> {
            &&& 1 <= u1 as int <= 8 && 1 <= u2 as int <= 8 && 1 <= u3 as int <= 8
            &&& -0x80000 <= n11 as int <= 0x80000 && -0x80000 <= n12 as int <= 0x80000
            &&& -0x80000 <= n13 as int <= 0x80000 && -0x80000 <= n21 as int <= 0x80000
            &&& -0x80000 <= n22 as int <= 0x80000 && -0x80000 <= n23 as int <= 0x80000
            &&& -0x80000 <= n31 as int <= 0x80000 && -0x80000 <= n32 as int <= 0x80000
            &&& -0x80000 <= n33 as int <= 0x80000
            &&& -0x4000000000 <= n22 as int * (n33 as int) <= 0x4000000000
            &&& -0x4000000000 <= n23 as int * (n32 as int) <= 0x4000000000
            &&& -0x4000000000 <= n21 as int * (n33 as int) <= 0x4000000000
            &&& -0x4000000000 <= n23 as int * (n31 as int) <= 0x4000000000
            &&& -0x4000000000 <= n21 as int * (n32 as int) <= 0x4000000000
            &&& -0x4000000000 <= n22 as int * (n31 as int) <= 0x4000000000
            &&& -0x4000000000 <= n13 as int * (n32 as int) <= 0x4000000000
            &&& -0x4000000000 <= n12 as int * (n33 as int) <= 0x4000000000
            &&& -0x4000000000 <= n12 as int * (n23 as int) <= 0x4000000000
            &&& -0x4000000000 <= n13 as int * (n22 as int) <= 0x4000000000
            &&& -0x4000000000 <= n11 as int * (n33 as int) <= 0x4000000000
            &&& -0x4000000000 <= n13 as int * (n31 as int) <= 0x4000000000
            &&& -0x4000000000 <= n13 as int * (n21 as int) <= 0x4000000000
            &&& -0x4000000000 <= n11 as int * (n23 as int) <= 0x4000000000
            &&& -0x4000000000 <= n12 as int * (n31 as int) <= 0x4000000000
            &&& -0x4000000000 <= n11 as int * (n32 as int) <= 0x4000000000
            &&& -0x4000000000 <= n11 as int * (n22 as int) <= 0x4000000000
            &&& -0x4000000000 <= n12 as int * (n21 as int) <= 0x4000000000
        }) by {
            if small {
                lemma_small_products(
                    n11 as int,
                    n12 as int,
                    n13 as int,
                    n21 as int,
                    n22 as int,
                    n23 as int,
                    n31 as int,
                    n32 as int,
                    n33 as int,
                );
            }
        };
    }
    // Minors of the scaled matrix.
    let m1: i128 = csub(cmul(n22, n33)?, cmul(n23, n32)?)?;
    let m2: i128 = csub(cmul(n21, n33)?, cmul(n23, n31)?)?;
    let m3: i128 = csub(cmul(n21, n32)?, cmul(n22, n31)?)?;
    proof {
        assert(small ==> {
            &&& -0x400000000000000 <= n11 as int * (m1 as int) <= 0x400000000000000
            &&& -0x400000000000000 <= n12 as int * (m2 as int) <= 0x400000000000000
            &&& -0x400000000000000 <= n13 as int * (m3 as int) <= 0x400000000000000
        }) by {
            if small {
                lemma_small_det_terms(
                    n11 as int,
                    n12 as int,
                    n13 as int,
                    m1 as int,
                    m2 as int,
                    m3 as int,
                );
            }
        };
    }
    let det: i128 = cadd(csub(cmul(n11, m1)?, cmul(n12, m2)?)?, cmul(n13, m3)?)?;
    // The rational determinant equals `det` over the product of the row
    // denominators.
    let ghost bigu = (u1 as int) * ((u2 as int) * (u3 as int));
    proof {
        lemma_det_scaled(
            r@,
            n11 as int,
            n12 as int,
            n13 as int,
            n21 as int,
            n22 as int,
            n23 as int,
            n31 as int,
            n32 as int,
            n33 as int,
            u1 as int,
            u2 as int,
            u3 as int,
            m1 as int,
            m2 as int,
            m3 as int,
            det as int,
        );
        assert(1 <= bigu) by (nonlinear_arith)
            requires
                bigu == (u1 as int) * ((u2 as int) * (u3 as int)),
                1 <= u1 as int && 1 <= u2 as int && 1 <= u3 as int,
        ;
    }
    if det == 0 {
        proof {
            lemma_req_trans(det3(r@), Ratio { n: det as int, d: bigu }, rzero());
        }
        return Some(None);
    }
    proof {
        lemma_det3_den_pos(r@);
        if req(det3(r@), rzero()) {
            lemma_req_sym(det3(r@), Ratio { n: det as int, d: bigu });
            lemma_req_trans(Ratio { n: det as int, d: bigu }, det3(r@), rzero());
            assert((det as int) * 1 == 0 * bigu);
            assert(0 * bigu == 0) by (nonlinear_arith);
            assert(false);
        }
    }
    // Adjugate of the scaled matrix.
    let a11: i128 = m1;
    let a12: i128 = csub(cmul(n13, n32)?, cmul(n12, n33)?)?;
    let a13: i128 = csub(cmul(n12, n23)?, cmul(n13, n22)?)?;
    let a21: i128 = csub(cmul(n23, n31)?, cmul(n21, n33)?)?;
    let a22: i128 = csub(cmul(n11, n33)?, cmul(n13, n31)?)?;
    let a23: i128 = csub(cmul(n13, n21)?, cmul(n11, n23)?)?;
    let a31: i128 = m3;
    let a32: i128 = csub(cmul(n12, n31)?, cmul(n11, n32)?)?;
    let a33: i128 = csub(cmul(n11, n22)?, cmul(n12, n21)?)?;
    // The inverse rotation block: adjugate entry times the column's row
    // denominator, over the determinant.
    proof {
        assert(small ==> {
            &&& -0x40000000000 <= a11 as int * (u1 as int) <= 0x40000000000
            &&& -0x40000000000 <= a12 as int * (u2 as int) <= 0x40000000000
            &&& -0x40000000000 <= a13 as int * (u3 as int) <= 0x40000000000
            &&& -0x40000000000 <= a21 as int * (u1 as int) <= 0x40000000000
            &&& -0x40000000000 <= a22 as int * (u2 as int) <= 0x40000000000
            &&& -0x40000000000 <= a23 as int * (u3 as int) <= 0x40000000000
            &&& -0x40000000000 <= a31 as int * (u1 as int) <= 0x40000000000
            &&& -0x40000000000 <= a32 as int * (u2 as int) <= 0x40000000000
            &&& -0x40000000000 <= a33 as int * (u3 as int) <= 0x40000000000
        }) by {
            if small {
                lemma_adj_scale_bound(a11 as int, u1 as int);
                lemma_adj_scale_bound(a12 as int, u2 as int);
                lemma_adj_scale_bound(a13 as int, u3 as int);
                lemma_adj_scale_bound(a21 as int, u1 as int);
                lemma_adj_scale_bound(a22 as int, u2 as int);
                lemma_adj_scale_bound(a23 as int, u3 as int);
                lemma_adj_scale_bound(a31 as int, u1 as int);
                lemma_adj_scale_bound(a32 as int, u2 as int);
                lemma_adj_scale_bound(a33 as int, u3 as int);
            }
        };
    }
    let w11: i128 = cmul(a11, u1)?;
    let w12: i128 = cmul(a12, u2)?;
    let w13: i128 = cmul(a13, u3)?;
    let w21: i128 = cmul(a21, u1)?;
    let w22: i128 = cmul(a22, u2)?;
    let w23: i128 = cmul(a23, u3)?;
    let w31: i128 = cmul(a31, u1)?;
    let w32: i128 = cmul(a32, u2)?;
    let w33: i128 = cmul(a33, u3)?;
    let s11: Rat = reduce_signed(w11, det)?;
    let s12: Rat = reduce_signed(w12, det)?;
    let s13: Rat = reduce_signed(w13, det)?;
    let s21: Rat = reduce_signed(w21, det)?;
    let s22: Rat = reduce_signed(w22, det)?;
    let s23: Rat = reduce_signed(w23, det)?;
    let s31: Rat = reduce_signed(w31, det)?;
    let s32: Rat = reduce_signed(w32, det)?;
    let s33: Rat = reduce_signed(w33, det)?;
    proof {
        assert(small ==> {
            &&& 1 <= (t@.x.d * t@.y.d) * t@.z.d <= 8
            &&& -0x80000 <= (t@.x.n * t@.y.d) * t@.z.d <= 0x80000
            &&& -0x80000 <= (t@.y.n * t@.x.d) * t@.z.d <= 0x80000
            &&& -0x80000 <= (t@.z.n * t@.x.d) * t@.y.d <= 0x80000
        }) by {
            if small {
                lemma_den_triple(t@.x.d, t@.y.d, t@.z.d);
                lemma_scaled_entry_bound(t@.x.n, t@.y.d, t@.z.d);
                lemma_scaled_entry_bound(t@.y.n, t@.x.d, t@.z.d);
                lemma_scaled_entry_bound(t@.z.n, t@.x.d, t@.y.d);
            }
        };
    }
    // Scale the translation to a common denominator.
    let bigt: i128 = cmul(mul_wide(t.x.d, t.y.d), t.z.d as i128)?;
    let tn1: i128 = cmul(mul_wide(t.x.n, t.y.d), t.z.d as i128)?;
    let tn2: i128 = cmul(mul_wide(t.y.n, t.x.d), t.z.d as i128)?;
    let tn3: i128 = cmul(mul_wide(t.z.n, t.x.d), t.y.d as i128)?;
    proof {
        lemma_row_scale(t@.x, t@.y, t@.z, tn1 as int, tn2 as int, tn3 as int, bigt as int);
        assert(small ==> {
            &&& 1 <= bigt as int <= 8
            &&& -0x2000000000000000 <= w11 as int * (tn1 as int) <= 0x2000000000000000
            &&& -0x2000000000000000 <= w12 as int * (tn2 as int) <= 0x2000000000000000
            &&& -0x2000000000000000 <= w13 as int * (tn3 as int) <= 0x2000000000000000
            &&& -0x2000000000000000 <= w21 as int * (tn1 as int) <= 0x2000000000000000
            &&& -0x2000000000000000 <= w22 as int * (tn2 as int) <= 0x2000000000000000
            &&& -0x2000000000000000 <= w23 as int * (tn3 as int) <= 0x2000000000000000
            &&& -0x2000000000000000 <= w31 as int * (tn1 as int) <= 0x2000000000000000
            &&& -0x2000000000000000 <= w32 as int * (tn2 as int) <= 0x2000000000000000
            &&& -0x2000000000000000 <= w33 as int * (tn3 as int) <= 0x2000000000000000
        }) by {
            if small {
                lemma_small_translation(
                    w11 as int,
                    w12 as int,
                    w13 as int,
                    w21 as int,
                    w22 as int,
                    w23 as int,
                    w31 as int,
                    w32 as int,
                    w33 as int,
                    tn1 as int,
                    tn2 as int,
                    tn3 as int,
                );
            }
        };
    }
    // The translation column of the inverse.
    let q1: i128 = csub(0, cadd(cadd(cmul(w11, tn1)?, cmul(w12, tn2)?)?, cmul(w13, tn3)?)?)?;
    let q2: i128 = csub(0, cadd(cadd(cmul(w21, tn1)?, cmul(w22, tn2)?)?, cmul(w23, tn3)?)?)?;
    let q3: i128 = csub(0, cadd(cadd(cmul(w31, tn1)?, cmul(w32, tn2)?)?, cmul(w33, tn3)?)?)?;
    proof {
        assert(small ==> -0x6000000000000000 <= (det as int) * (bigt as int)
            <= 0x6000000000000000) by {
            if small {
                assert(-0x6000000000000000 <= (det as int) * (bigt as int)
                    <= 0x6000000000000000) by (nonlinear_arith)
                    requires
                        -0xc00000000000000 <= det as int <= 0xc00000000000000,
                        1 <= bigt as int <= 8,
                ;
            }
        };
    }
    let dt: i128 = cmul(det, bigt)?;
    proof {
        assert(dt != 0) by (nonlinear_arith)
            requires
                dt as int == (det as int) * (bigt as int),
                det as int != 0,
                bigt as int >= 1,
        ;
    }
    let s14: Rat = reduce_signed(q1, dt)?;
    let s24: Rat = reduce_signed(q2, dt)?;
    let s34: Rat = reduce_signed(q3, dt)?;
    let z = Rat::zero();
    let o = Rat::one();
    let s = Mat4 {
        m11: s11,
        m12: s12,
        m13: s13,
        m14: s14,
        m21: s21,
        m22: s22,
        m23: s23,
        m24: s24,
        m31: s31,
        m32: s32,
        m33: s33,
        m34: s34,
        m41: z,
        m42: z,
        m43: z,
        m44: o,
    };
    proof {
        lemma_inverse_correct(
            r@,
            t@,
            s@,
            n11 as int,
            n12 as int,
            n13 as int,
            n21 as int,
            n22 as int,
            n23 as int,
            n31 as int,
            n32 as int,
            n33 as int,
            u1 as int,
            u2 as int,
            u3 as int,
            a11 as int,
            a12 as int,
            a13 as int,
            a21 as int,
            a22 as int,
            a23 as int,
            a31 as int,
            a32 as int,
            a33 as int,
            det as int,
            w11 as int,
            w12 as int,
            w13 as int,
            w21 as int,
            w22 as int,
            w23 as int,
            w31 as int,
            w32 as int,
            w33 as int,
            bigt as int,
            tn1 as int,
            tn2 as int,
            tn3 as int,
            q1 as int,
            q2 as int,
            q3 as int,
            dt as int,
        );
    }
    Some(Some(s))
}

/// Scaling the three entries of a row onto the product of its denominators
/// keeps each value.
proof fn lemma_row_scale(e1: Ratio, e2: Ratio, e3: Ratio, k1: int, k2: int, k3: int, u: int)
    requires
        rwf(e1),
        rwf(e2),
        rwf(e3),
        u == (e1.d * e2.d) * e3.d,
        k1 == (e1.n * e2.d) * e3.d,
        k2 == (e2.n * e1.d) * e3.d,
        k3 == (e3.n * e1.d) * e2.d,
    ensures
        req(e1, Ratio { n: k1, d: u }),
        req(e2, Ratio { n: k2, d: u }),
        req(e3, Ratio { n: k3, d: u }),
        1 <= u,
{
    assert(e1.n * u == k1 * e1.d && e2.n * u == k2 * e2.d && e3.n * u == k3 * e3.d && 1 <= u)
        by (nonlinear_arith)
        requires
            u == (e1.d * e2.d) * e3.d,
            k1 == (e1.n * e2.d) * e3.d,
            k2 == (e2.n * e1.d) * e3.d,
            k3 == (e3.n * e1.d) * e2.d,
            1 <= e1.d && 1 <= e2.d && 1 <= e3.d,
    ;
}

/// The product of three denominators in the one-or-two range.
proof fn lemma_den_triple(y1: int, y2: int, y3: int)
    requires
        1 <= y1 <= 2,
        1 <= y2 <= 2,
        1 <= y3 <= 2,
    ensures
        1 <= (y1 * y2) * y3 <= 8,
{
    assert(1 <= (y1 * y2) * y3 <= 8) by (nonlinear_arith)
        requires
            1 <= y1 <= 2 && 1 <= y2 <= 2 && 1 <= y3 <= 2,
    ;
}

/// A numerator scaled by two denominators in the one-or-two range.
proof fn lemma_scaled_entry_bound(x: int, y: int, z: int)
    requires
        -0x20000 <= x <= 0x20000,
        1 <= y <= 2,
        1 <= z <= 2,
    ensures
        -0x80000 <= (x * y) * z <= 0x80000,
{
    assert(-0x80000 <= (x * y) * z <= 0x80000) by (nonlinear_arith)
        requires
            -0x20000 <= x <= 0x20000 && 1 <= y <= 2 && 1 <= z <= 2,
    ;
}

/// An adjugate entry scaled by a row denominator product.
proof fn lemma_adj_scale_bound(a: int, u: int)
    requires
        -0x8000000000 <= a <= 0x8000000000,
        1 <= u <= 8,
    ensures
        -0x40000000000 <= a * u <= 0x40000000000,
{
    assert(-0x40000000000 <= a * u <= 0x40000000000) by (nonlinear_arith)
        requires
            -0x8000000000 <= a <= 0x8000000000 && 1 <= u <= 8,
    ;
}

/// Bounds on the pairwise products of row-scaled entries.
proof fn lemma_small_products(
    n11: int,
    n12: int,
    n13: int,
    n21: int,
    n22: int,
    n23: int,
    n31: int,
    n32: int,
    n33: int,
)
    requires
        -0x80000 <= n11 <= 0x80000 && -0x80000 <= n12 <= 0x80000 && -0x80000 <= n13 <= 0x80000,
        -0x80000 <= n21 <= 0x80000 && -0x80000 <= n22 <= 0x80000 && -0x80000 <= n23 <= 0x80000,
        -0x80000 <= n31 <= 0x80000 && -0x80000 <= n32 <= 0x80000 && -0x80000 <= n33 <= 0x80000,
    ensures
        -0x4000000000 <= n22 * n33 <= 0x4000000000,
        -0x4000000000 <= n23 * n32 <= 0x4000000000,
        -0x4000000000 <= n21 * n33 <= 0x4000000000,
        -0x4000000000 <= n23 * n31 <= 0x4000000000,
        -0x4000000000 <= n21 * n32 <= 0x4000000000,
        -0x4000000000 <= n22 * n31 <= 0x4000000000,
        -0x4000000000 <= n13 * n32 <= 0x4000000000,
        -0x4000000000 <= n12 * n33 <= 0x4000000000,
        -0x4000000000 <= n12 * n23 <= 0x4000000000,
        -0x4000000000 <= n13 * n22 <= 0x4000000000,
        -0x4000000000 <= n11 * n33 <= 0x4000000000,
        -0x4000000000 <= n13 * n31 <= 0x4000000000,
        -0x4000000000 <= n13 * n21 <= 0x4000000000,
        -0x4000000000 <= n11 * n23 <= 0x4000000000,
        -0x4000000000 <= n12 * n31 <= 0x4000000000,
        -0x4000000000 <= n11 * n32 <= 0x4000000000,
        -0x4000000000 <= n11 * n22 <= 0x4000000000,
        -0x4000000000 <= n12 * n21 <= 0x4000000000,
{
    assert forall|x: int, y: int|
        -0x80000 <= x <= 0x80000 && -0x80000 <= y <= 0x80000 implies -0x4000000000 <= #[trigger] (x * y)
        <= 0x4000000000 by {
        assert(-0x4000000000 <= x * y <= 0x4000000000) by (nonlinear_arith)
            requires
                -0x80000 <= x <= 0x80000,
                -0x80000 <= y <= 0x80000,
        ;
    }
}

/// Bounds on the determinant terms of a small matrix.
proof fn lemma_small_det_terms(n11: int, n12: int, n13: int, m1: int, m2: int, m3: int)
    requires
        -0x80000 <= n11 <= 0x80000 && -0x80000 <= n12 <= 0x80000 && -0x80000 <= n13 <= 0x80000,
        -0x8000000000 <= m1 <= 0x8000000000,
        -0x8000000000 <= m2 <= 0x8000000000,
        -0x8000000000 <= m3 <= 0x8000000000,
    ensures
        -0x400000000000000 <= n11 * m1 <= 0x400000000000000,
        -0x400000000000000 <= n12 * m2 <= 0x400000000000000,
        -0x400000000000000 <= n13 * m3 <= 0x400000000000000,
{
    assert(-0x400000000000000 <= n11 * m1 <= 0x400000000000000 && -0x400000000000000 <= n12 * m2
        <= 0x400000000000000 && -0x400000000000000 <= n13 * m3 <= 0x400000000000000)
        by (nonlinear_arith)
        requires
            -0x80000 <= n11 <= 0x80000 && -0x80000 <= n12 <= 0x80000 && -0x80000 <= n13 <= 0x80000,
            -0x8000000000 <= m1 <= 0x8000000000,
            -0x8000000000 <= m2 <= 0x8000000000,
            -0x8000000000 <= m3 <= 0x8000000000,
    ;
}

/// Bounds on the products of inverse-block numerators with the translation
/// numerators, for small inputs.
proof fn lemma_small_translation(
    w11: int,
    w12: int,
    w13: int,
    w21: int,
    w22: int,
    w23: int,
    w31: int,
    w32: int,
    w33: int,
    tn1: int,
    tn2: int,
    tn3: int,
)
    requires
        -0x40000000000 <= w11 <= 0x40000000000 && -0x40000000000 <= w12 <= 0x40000000000,
        -0x40000000000 <= w13 <= 0x40000000000 && -0x40000000000 <= w21 <= 0x40000000000,
        -0x40000000000 <= w22 <= 0x40000000000 && -0x40000000000 <= w23 <= 0x40000000000,
        -0x40000000000 <= w31 <= 0x40000000000 && -0x40000000000 <= w32 <= 0x40000000000,
        -0x40000000000 <= w33 <= 0x40000000000,
        -0x80000 <= tn1 <= 0x80000 && -0x80000 <= tn2 <= 0x80000 && -0x80000 <= tn3 <= 0x80000,
    ensures
        -0x2000000000000000 <= w11 * tn1 <= 0x2000000000000000,
        -0x2000000000000000 <= w12 * tn2 <= 0x2000000000000000,
        -0x2000000000000000 <= w13 * tn3 <= 0x2000000000000000,
        -0x2000000000000000 <= w21 * tn1 <= 0x2000000000000000,
        -0x2000000000000000 <= w22 * tn2 <= 0x2000000000000000,
        -0x2000000000000000 <= w23 * tn3 <= 0x2000000000000000,
        -0x2000000000000000 <= w31 * tn1 <= 0x2000000000000000,
        -0x2000000000000000 <= w32 * tn2 <= 0x2000000000000000,
        -0x2000000000000000 <= w33 * tn3 <= 0x2000000000000000,
{
    assert forall|x: int, y: int|
        -0x40000000000 <= x <= 0x40000000000 && -0x80000 <= y <= 0x80000
        implies -0x2000000000000000 <= #[trigger] (x * y) <= 0x2000000000000000 by {
        assert(-0x2000000000000000 <= x * y <= 0x2000000000000000) by (nonlinear_arith)
            requires
                -0x40000000000 <= x <= 0x40000000000,
                -0x80000 <= y <= 0x80000,
        ;
    }
}

/// The rational determinant of the matrix equals the integer determinant of
/// the row-scaled matrix over the product of row denominators.
#[verifier::spinoff_prover]
proof fn lemma_det_scaled(
    rv: Mat3Val,
    n11: int,
    n12: int,
    n13: int,
    n21: int,
    n22: int,
    n23: int,
    n31: int,
    n32: int,
    n33: int,
    u1: int,
    u2: int,
    u3: int,
    m1: int,
    m2: int,
    m3: int,
    det: int,
)
    requires
        mat3_wf(rv),
        1 <= u1 && 1 <= u2 && 1 <= u3,
        req(rv.m11, Ratio { n: n11, d: u1 }),
        req(rv.m12, Ratio { n: n12, d: u1 }),
        req(rv.m13, Ratio { n: n13, d: u1 }),
        req(rv.m21, Ratio { n: n21, d: u2 }),
        req(rv.m22, Ratio { n: n22, d: u2 }),
        req(rv.m23, Ratio { n: n23, d: u2 }),
        req(rv.m31, Ratio { n: n31, d: u3 }),
        req(rv.m32, Ratio { n: n32, d: u3 }),
        req(rv.m33, Ratio { n: n33, d: u3 }),
        m1 == n22 * n33 - n23 * n32,
        m2 == n21 * n33 - n23 * n31,
        m3 == n21 * n32 - n22 * n31,
        det == n11 * m1 - n12 * m2 + n13 * m3,
    ensures
        req(det3(rv), Ratio { n: det, d: u1 * (u2 * u3) }),
{
    let g11 = Ratio { n: n11, d: u1 };
    let g12 = Ratio { n: n12, d: u1 };
    let g13 = Ratio { n: n13, d: u1 };
    let g21 = Ratio { n: n21, d: u2 };
    let g22 = Ratio { n: n22, d: u2 };
    let g23 = Ratio { n: n23, d: u2 };
    let g31 = Ratio { n: n31, d: u3 };
    let g32 = Ratio { n: n32, d: u3 };
    let g33 = Ratio { n: n33, d: u3 };
    let u23 = u2 * u3;
    assert(1 <= u23 && 1 <= u23 * u23 && 1 <= u1 * u23 && (u1 * u23) * (u1 * u23) >= 1)
        by (nonlinear_arith)
        requires
            1 <= u1 && 1 <= u2 && 1 <= u3,
            u23 == u2 * u3,
    ;
    // First minor.
    let i1 = rsub(rmul(rv.m22, rv.m33), rmul(rv.m23, rv.m32));
    lemma_req_mul(rv.m22, rv.m33, g22, g33);
    lemma_req_mul(rv.m23, rv.m32, g23, g32);
    lemma_req_sub(rmul(rv.m22, rv.m33), rmul(rv.m23, rv.m32), rmul(g22, g33), rmul(g23, g32));
    lemma_radd_same_den(n22 * n33, -(n23 * n32), u23);
    assert(rsub(rmul(g22, g33), rmul(g23, g32)) == radd(
        Ratio { n: n22 * n33, d: u23 },
        Ratio { n: -(n23 * n32), d: u23 },
    ));
    lemma_req_trans(i1, rsub(rmul(g22, g33), rmul(g23, g32)), Ratio { n: m1, d: u23 });
    // Second minor.
    let i2 = rsub(rmul(rv.m21, rv.m33), rmul(rv.m23, rv.m31));
    lemma_req_mul(rv.m21, rv.m33, g21, g33);
    lemma_req_mul(rv.m23, rv.m31, g23, g31);
    lemma_req_sub(rmul(rv.m21, rv.m33), rmul(rv.m23, rv.m31), rmul(g21, g33), rmul(g23, g31));
    lemma_radd_same_den(n21 * n33, -(n23 * n31), u23);
    assert(rsub(rmul(g21, g33), rmul(g23, g31)) == radd(
        Ratio { n: n21 * n33, d: u23 },
        Ratio { n: -(n23 * n31), d: u23 },
    ));
    lemma_req_trans(i2, rsub(rmul(g21, g33), rmul(g23, g31)), Ratio { n: m2, d: u23 });
    // Third minor.
    let i3 = rsub(rmul(rv.m21, rv.m32), rmul(rv.m22, rv.m31));
    lemma_req_mul(rv.m21, rv.m32, g21, g32);
    lemma_req_mul(rv.m22, rv.m31, g22, g31);
    lemma_req_sub(rmul(rv.m21, rv.m32), rmul(rv.m22, rv.m31), rmul(g21, g32), rmul(g22, g31));
    lemma_radd_same_den(n21 * n32, -(n22 * n31), u23);
    assert(rsub(rmul(g21, g32), rmul(g22, g31)) == radd(
        Ratio { n: n21 * n32, d: u23 },
        Ratio { n: -(n22 * n31), d: u23 },
    ));
    lemma_req_trans(i3, rsub(rmul(g21, g32), rmul(g22, g31)), Ratio { n: m3, d: u23 });
    // Cofactor terms over the full denominator.
    let h1 = Ratio { n: m1, d: u23 };
    let h2 = Ratio { n: m2, d: u23 };
    let h3 = Ratio { n: m3, d: u23 };
    lemma_req_mul(rv.m11, i1, g11, h1);
    lemma_req_mul(rv.m12, i2, g12, h2);
    lemma_req_mul(rv.m13, i3, g13, h3);
    let c1 = rmul(rv.m11, i1);
    let c2 = rmul(rv.m12, i2);
    let c3 = rmul(rv.m13, i3);
    let e1 = Ratio { n: n11 * m1, d: u1 * u23 };
    let e2 = Ratio { n: n12 * m2, d: u1 * u23 };
    let e3 = Ratio { n: n13 * m3, d: u1 * u23 };
    assert(rmul(g11, h1) == e1 && rmul(g12, h2) == e2 && rmul(g13, h3) == e3);
    lemma_req_sub(c1, c2, e1, e2);
    lemma_radd_same_den(n11 * m1, -(n12 * m2), u1 * u23);
    assert(rsub(e1, e2) == radd(
        Ratio { n: n11 * m1, d: u1 * u23 },
        Ratio { n: -(n12 * m2), d: u1 * u23 },
    ));
    let e12 = Ratio { n: n11 * m1 - n12 * m2, d: u1 * u23 };
    lemma_req_trans(rsub(c1, c2), rsub(e1, e2), e12);
    lemma_req_add(rsub(c1, c2), c3, e12, e3);
    lemma_radd_same_den(n11 * m1 - n12 * m2, n13 * m3, u1 * u23);
    assert(radd(e12, e3) == radd(
        Ratio { n: n11 * m1 - n12 * m2, d: u1 * u23 },
        Ratio { n: n13 * m3, d: u1 * u23 },
    ));
    let efin = Ratio { n: det, d: u1 * u23 };
    lemma_req_trans(radd(rsub(c1, c2), c3), radd(e12, e3), efin);
    assert(det3(rv) == radd(rsub(c1, c2), c3));
}

/// Scaling the four components of a vector onto the product of its
/// denominators keeps each value.
proof fn lemma_vec4_scale(
    v: Vec4Val,
    vn1: int,
    vn2: int,
    vn3: int,
    vn4: int,
    bigv: int,
)
    requires
        vec4_wf(v),
        bigv == ((v.x.d * v.y.d) * v.z.d) * v.w.d,
        vn1 == ((v.x.n * v.y.d) * v.z.d) * v.w.d,
        vn2 == ((v.y.n * v.x.d) * v.z.d) * v.w.d,
        vn3 == ((v.z.n * v.x.d) * v.y.d) * v.w.d,
        vn4 == ((v.w.n * v.x.d) * v.y.d) * v.z.d,
    ensures
        req(v.x, Ratio { n: vn1, d: bigv }),
        req(v.y, Ratio { n: vn2, d: bigv }),
        req(v.z, Ratio { n: vn3, d: bigv }),
        req(v.w, Ratio { n: vn4, d: bigv }),
        1 <= bigv,
{
    assert(v.x.n * bigv == vn1 * v.x.d && v.y.n * bigv == vn2 * v.y.d && v.z.n * bigv == vn3
        * v.z.d && v.w.n * bigv == vn4 * v.w.d && 1 <= bigv) by (nonlinear_arith)
        requires
            bigv == ((v.x.d * v.y.d) * v.z.d) * v.w.d,
            vn1 == ((v.x.n * v.y.d) * v.z.d) * v.w.d,
            vn2 == ((v.y.n * v.x.d) * v.z.d) * v.w.d,
            vn3 == ((v.z.n * v.x.d) * v.y.d) * v.w.d,
            vn4 == ((v.w.n * v.x.d) * v.y.d) * v.z.d,
            1 <= v.x.d && 1 <= v.y.d && 1 <= v.z.d && 1 <= v.w.d,
    ;
}

/// The inner product of the constant row `(0, 0, 0, 1)` with any vector of
/// nonzero denominators is its last component.
proof fn lemma_bottom_row(x1: Ratio, x2: Ratio, x3: Ratio, x4: Ratio)
    requires
        x1.d != 0,
        x2.d != 0,
        x3.d != 0,
        x4.d != 0,
    ensures
        req(sdot4(rzero(), rzero(), rzero(), rone(), x1, x2, x3, x4), x4),
{
    let s = sdot4(rzero(), rzero(), rzero(), rone(), x1, x2, x3, x4);
    let d123 = (x1.d * x2.d) * x3.d;
    let t1 = rmul(rzero(), x1);
    let t2 = rmul(rzero(), x2);
    let t3 = rmul(rzero(), x3);
    let t4 = rmul(rone(), x4);
    assert(t1.n == 0 && t1.d == x1.d);
    assert(t2.n == 0 && t2.d == x2.d);
    assert(t3.n == 0 && t3.d == x3.d);
    assert(t4.n == x4.n && t4.d == x4.d);
    let s12 = radd(t1, t2);
    assert(s12.n == 0) by (nonlinear_arith)
        requires
            s12.n == t1.n * t2.d + t2.n * t1.d,
            t1.n == 0,
            t2.n == 0,
    ;
    let s123 = radd(s12, t3);
    assert(s123.n == 0) by (nonlinear_arith)
        requires
            s123.n == s12.n * t3.d + t3.n * s12.d,
            s12.n == 0,
            t3.n == 0,
    ;
    assert(s123.d == (t1.d * t2.d) * t3.d);
    assert(s123.d == d123) by (nonlinear_arith)
        requires
            s123.d == (t1.d * t2.d) * t3.d,
            t1.d == x1.d,
            t2.d == x2.d,
            t3.d == x3.d,
            d123 == (x1.d * x2.d) * x3.d,
    ;
    assert(s == radd(s123, t4));
    assert(s.n == x4.n * d123 && s.d == d123 * x4.d) by (nonlinear_arith)
        requires
            s.n == s123.n * t4.d + t4.n * s123.d,
            s.d == s123.d * t4.d,
            s123.n == 0,
            s123.d == d123,
            t4.n == x4.n,
            t4.d == x4.d,
    ;
    assert((x4.n * d123) * x4.d == x4.n * (d123 * x4.d)) by (nonlinear_arith);
}

/// Multiplication is commutative.
proof fn lemma_comm(x: int, y: int)
    ensures
        x * y == y * x,
{
    assert(x * y == y * x) by (nonlinear_arith);
}

/// Multiplication distributes from the left over a two-term sum.
proof fn lemma_ldistrib2(x: int, a: int, b: int)
    ensures
        x * (a + b) == x * a + x * b,
{
    assert(x * (a + b) == x * a + x * b) by (nonlinear_arith);
}

/// Multiplication distributes from the left over a three-term sum.
proof fn lemma_ldistrib3(x: int, a: int, b: int, c: int)
    ensures
        x * ((a + b) + c) == (x * a + x * b) + x * c,
{
    assert(x * ((a + b) + c) == (x * a + x * b) + x * c) by (nonlinear_arith);
}

/// Multiplication distributes over a difference.
proof fn lemma_mul_sub(x: int, a: int, b: int)
    ensures
        x * (a - b) == x * a - x * b,
{
    assert(x * (a - b) == x * a - x * b) by (nonlinear_arith);
}

/// Negation moves through a product on either side.
proof fn lemma_mul_neg(x: int, y: int)
    ensures
        x * (0 - y) == 0 - x * y,
        (0 - x) * y == 0 - x * y,
{
    assert(x * (0 - y) == 0 - x * y && (0 - x) * y == 0 - x * y) by (nonlinear_arith);
}

/// Swap the outer factor with the first inner factor.
proof fn lemma_mul3_swap(x: int, y: int, z: int)
    ensures
        x * (y * z) == y * (x * z),
{
    assert(x * (y * z) == y * (x * z)) by (nonlinear_arith);
}

/// Rotate the three factors of a product.
proof fn lemma_mul3_rot(x: int, y: int, z: int)
    ensures
        x * (y * z) == y * (z * x),
{
    assert(x * (y * z) == y * (z * x)) by (nonlinear_arith);
}

/// For the integer matrix `N`, each row dotted with each column of the
/// adjugate yields the determinant on the diagonal and zero elsewhere.
#[verifier::spinoff_prover]
proof fn lemma_adjugate(
    n11: int,
    n12: int,
    n13: int,
    n21: int,
    n22: int,
    n23: int,
    n31: int,
    n32: int,
    n33: int,
    a11: int,
    a12: int,
    a13: int,
    a21: int,
    a22: int,
    a23: int,
    a31: int,
    a32: int,
    a33: int,
    det: int,
)
    requires
        a11 == n22 * n33 - n23 * n32,
        a12 == n13 * n32 - n12 * n33,
        a13 == n12 * n23 - n13 * n22,
        a21 == n23 * n31 - n21 * n33,
        a22 == n11 * n33 - n13 * n31,
        a23 == n13 * n21 - n11 * n23,
        a31 == n21 * n32 - n22 * n31,
        a32 == n12 * n31 - n11 * n32,
        a33 == n11 * n22 - n12 * n21,
        det == (n11 * (n22 * n33 - n23 * n32) - n12 * (n21 * n33 - n23 * n31)) + n13 * (n21 * n32
            - n22 * n31),
    ensures
        (n11 * a11 + n12 * a21) + n13 * a31 == det * 1,
        (n11 * a12 + n12 * a22) + n13 * a32 == det * 0,
        (n11 * a13 + n12 * a23) + n13 * a33 == det * 0,
        (n21 * a11 + n22 * a21) + n23 * a31 == det * 0,
        (n21 * a12 + n22 * a22) + n23 * a32 == det * 1,
        (n21 * a13 + n22 * a23) + n23 * a33 == det * 0,
        (n31 * a11 + n32 * a21) + n33 * a31 == det * 0,
        (n31 * a12 + n32 * a22) + n33 * a32 == det * 0,
        (n31 * a13 + n32 * a23) + n33 * a33 == det * 1,
{
    assert((n11 * a11 + n12 * a21) + n13 * a31 == det) by (nonlinear_arith)
        requires
            a11 == n22 * n33 - n23 * n32,
            a21 == n23 * n31 - n21 * n33,
            a31 == n21 * n32 - n22 * n31,
            det == (n11 * (n22 * n33 - n23 * n32) - n12 * (n21 * n33 - n23 * n31)) + n13 * (n21
                * n32 - n22 * n31),
    ;
    lemma_mul_sub(n11, n22 * n33, n23 * n32);
    lemma_mul_sub(n12, n21 * n33, n23 * n31);
    lemma_mul_sub(n13, n21 * n32, n22 * n31);
    lemma_mul_sub(n21, n13 * n32, n12 * n33);
    lemma_mul_sub(n22, n11 * n33, n13 * n31);
    lemma_mul_sub(n23, n12 * n31, n11 * n32);
    lemma_mul3_swap(n21, n13, n32);
    lemma_mul3_swap(n21, n12, n33);
    lemma_mul3_swap(n22, n11, n33);
    lemma_mul3_swap(n22, n13, n31);
    lemma_mul3_swap(n23, n12, n31);
    lemma_mul3_swap(n23, n11, n32);
    assert((n21 * a12 + n22 * a22) + n23 * a32 == det);
    lemma_mul_sub(n31, n12 * n23, n13 * n22);
    lemma_mul_sub(n32, n13 * n21, n11 * n23);
    lemma_mul_sub(n33, n11 * n22, n12 * n21);
    lemma_mul3_rot(n31, n12, n23);
    lemma_mul3_rot(n31, n13, n22);
    lemma_mul3_rot(n32, n13, n21);
    lemma_mul3_rot(n32, n11, n23);
    lemma_mul3_rot(n33, n11, n22);
    lemma_mul3_rot(n33, n12, n21);
    assert((n31 * a13 + n32 * a23) + n33 * a33 == det);
    assert((n11 * a12 + n12 * a22) + n13 * a32 == 0) by (nonlinear_arith)
        requires
            a12 == n13 * n32 - n12 * n33,
            a22 == n11 * n33 - n13 * n31,
            a32 == n12 * n31 - n11 * n32,
    ;
    assert((n11 * a13 + n12 * a23) + n13 * a33 == 0) by (nonlinear_arith)
        requires
            a13 == n12 * n23 - n13 * n22,
            a23 == n13 * n21 - n11 * n23,
            a33 == n11 * n22 - n12 * n21,
    ;
    assert((n21 * a11 + n22 * a21) + n23 * a31 == 0) by (nonlinear_arith)
        requires
            a11 == n22 * n33 - n23 * n32,
            a21 == n23 * n31 - n21 * n33,
            a31 == n21 * n32 - n22 * n31,
    ;
    assert((n21 * a13 + n22 * a23) + n23 * a33 == 0) by (nonlinear_arith)
        requires
            a13 == n12 * n23 - n13 * n22,
            a23 == n13 * n21 - n11 * n23,
            a33 == n11 * n22 - n12 * n21,
    ;
    assert((n31 * a11 + n32 * a21) + n33 * a31 == 0) by (nonlinear_arith)
        requires
            a11 == n22 * n33 - n23 * n32,
            a21 == n23 * n31 - n21 * n33,
            a31 == n21 * n32 - n22 * n31,
    ;
    assert((n31 * a12 + n32 * a22) + n33 * a32 == 0) by (nonlinear_arith)
        requires
            a12 == n13 * n32 - n12 * n33,
            a22 == n11 * n33 - n13 * n31,
            a32 == n12 * n31 - n11 * n32,
    ;
    assert(det * 1 == det && det * 0 == 0) by (nonlinear_arith);
}

/// The core integer identity behind one row of the round trip: applying the
/// extrinsics row to the transformed vector gives back the selected
/// component.
#[verifier::rlimit(30)]
#[verifier::spinoff_prover]
proof fn lemma_row_identity(
    nn1: int,
    nn2: int,
    nn3: int,
    tnr: int,
    tdr: int,
    tnnr: int,
    u: int,
    w11: int,
    w12: int,
    w13: int,
    w21: int,
    w22: int,
    w23: int,
    w31: int,
    w32: int,
    w33: int,
    q1: int,
    q2: int,
    q3: int,
    det: int,
    bigt: int,
    dt: int,
    tn1: int,
    tn2: int,
    tn3: int,
    vn1: int,
    vn2: int,
    vn3: int,
    vn4: int,
    bigv: int,
    vnr: int,
    vdr: int,
    vnnr: int,
    p1: int,
    p2: int,
    p3: int,
    e1: int,
    e2: int,
    e3: int,
    a11: int,
    a12: int,
    a13: int,
    a21: int,
    a22: int,
    a23: int,
    a31: int,
    a32: int,
    a33: int,
    u1: int,
    u2: int,
    u3: int,
)
    requires
        dt == det * bigt,
        w11 == a11 * u1 && w12 == a12 * u2 && w13 == a13 * u3,
        w21 == a21 * u1 && w22 == a22 * u2 && w23 == a23 * u3,
        w31 == a31 * u1 && w32 == a32 * u2 && w33 == a33 * u3,
        q1 == 0 - (((w11 * tn1) + (w12 * tn2)) + (w13 * tn3)),
        q2 == 0 - (((w21 * tn1) + (w22 * tn2)) + (w23 * tn3)),
        q3 == 0 - (((w31 * tn1) + (w32 * tn2)) + (w33 * tn3)),
        p1 == bigt * (((w11 * vn1) + (w12 * vn2)) + (w13 * vn3)) + q1 * vn4,
        p2 == bigt * (((w21 * vn1) + (w22 * vn2)) + (w23 * vn3)) + q2 * vn4,
        p3 == bigt * (((w31 * vn1) + (w32 * vn2)) + (w33 * vn3)) + q3 * vn4,
        (nn1 * a11 + nn2 * a21) + nn3 * a31 == det * e1,
        (nn1 * a12 + nn2 * a22) + nn3 * a32 == det * e2,
        (nn1 * a13 + nn2 * a23) + nn3 * a33 == det * e3,
        (e1 * (u1 * vn1) + e2 * (u2 * vn2)) + e3 * (u3 * vn3) == u * vnnr,
        (e1 * (u1 * tn1) + e2 * (u2 * tn2)) + e3 * (u3 * tn3) == u * tnnr,
        tnr * bigt == tnnr * tdr,
        vnr * bigv == vnnr * vdr,
    ensures
        ((((nn1 * tdr) * p1 + (nn2 * tdr) * p2) + (nn3 * tdr) * p3) + (tnr * u) * (vn4 * dt)) * vdr
            == vnr * ((u * tdr) * (dt * bigv)),
{
    let g1 = ((w11 * vn1) + (w12 * vn2)) + (w13 * vn3);
    let g2 = ((w21 * vn1) + (w22 * vn2)) + (w23 * vn3);
    let g3 = ((w31 * vn1) + (w32 * vn2)) + (w33 * vn3);
    let h1 = ((w11 * tn1) + (w12 * tn2)) + (w13 * tn3);
    let h2 = ((w21 * tn1) + (w22 * tn2)) + (w23 * tn3);
    let h3 = ((w31 * tn1) + (w32 * tn2)) + (w33 * tn3);
    // Column sums of the scaled inverse block against the row of N.
    assert((nn1 * w11 + nn2 * w21) + nn3 * w31 == (det * e1) * u1) by (nonlinear_arith)
        requires
            w11 == a11 * u1 && w21 == a21 * u1 && w31 == a31 * u1,
            (nn1 * a11 + nn2 * a21) + nn3 * a31 == det * e1,
    ;
    assert((nn1 * w12 + nn2 * w22) + nn3 * w32 == (det * e2) * u2) by (nonlinear_arith)
        requires
            w12 == a12 * u2 && w22 == a22 * u2 && w32 == a32 * u2,
            (nn1 * a12 + nn2 * a22) + nn3 * a32 == det * e2,
    ;
    assert((nn1 * w13 + nn2 * w23) + nn3 * w33 == (det * e3) * u3) by (nonlinear_arith)
        requires
            w13 == a13 * u3 && w23 == a23 * u3 && w33 == a33 * u3,
            (nn1 * a13 + nn2 * a23) + nn3 * a33 == det * e3,
    ;
    // Expand each weighted row sum into single products.
    lemma_ldistrib3(nn1, w11 * vn1, w12 * vn2, w13 * vn3);
    lemma_ldistrib3(nn2, w21 * vn1, w22 * vn2, w23 * vn3);
    lemma_ldistrib3(nn3, w31 * vn1, w32 * vn2, w33 * vn3);
    lemma_ldistrib3(nn1, w11 * tn1, w12 * tn2, w13 * tn3);
    lemma_ldistrib3(nn2, w21 * tn1, w22 * tn2, w23 * tn3);
    lemma_ldistrib3(nn3, w31 * tn1, w32 * tn2, w33 * tn3);
    lemma_assoc(nn1, w11, vn1);
    lemma_assoc(nn1, w12, vn2);
    lemma_assoc(nn1, w13, vn3);
    lemma_assoc(nn2, w21, vn1);
    lemma_assoc(nn2, w22, vn2);
    lemma_assoc(nn2, w23, vn3);
    lemma_assoc(nn3, w31, vn1);
    lemma_assoc(nn3, w32, vn2);
    lemma_assoc(nn3, w33, vn3);
    lemma_assoc(nn1, w11, tn1);
    lemma_assoc(nn1, w12, tn2);
    lemma_assoc(nn1, w13, tn3);
    lemma_assoc(nn2, w21, tn1);
    lemma_assoc(nn2, w22, tn2);
    lemma_assoc(nn2, w23, tn3);
    lemma_assoc(nn3, w31, tn1);
    lemma_assoc(nn3, w32, tn2);
    lemma_assoc(nn3, w33, tn3);
    // Regroup by column and substitute the column sums.
    lemma_distrib3(nn1 * w11, nn2 * w21, nn3 * w31, vn1);
    lemma_distrib3(nn1 * w12, nn2 * w22, nn3 * w32, vn2);
    lemma_distrib3(nn1 * w13, nn2 * w23, nn3 * w33, vn3);
    lemma_distrib3(nn1 * w11, nn2 * w21, nn3 * w31, tn1);
    lemma_distrib3(nn1 * w12, nn2 * w22, nn3 * w32, tn2);
    lemma_distrib3(nn1 * w13, nn2 * w23, nn3 * w33, tn3);
    assert((nn1 * g1 + nn2 * g2) + nn3 * g3 == (((det * e1) * u1) * vn1 + ((det * e2) * u2) * vn2)
        + ((det * e3) * u3) * vn3);
    assert((nn1 * h1 + nn2 * h2) + nn3 * h3 == (((det * e1) * u1) * tn1 + ((det * e2) * u2) * tn2)
        + ((det * e3) * u3) * tn3);
    // Pull the determinant out in front.
    lemma_assoc(det, e1, u1);
    lemma_assoc(det, e2, u2);
    lemma_assoc(det, e3, u3);
    lemma_assoc(det, e1 * u1, vn1);
    lemma_assoc(det, e2 * u2, vn2);
    lemma_assoc(det, e3 * u3, vn3);
    lemma_assoc(det, e1 * u1, tn1);
    lemma_assoc(det, e2 * u2, tn2);
    lemma_assoc(det, e3 * u3, tn3);
    lemma_assoc(e1, u1, vn1);
    lemma_assoc(e2, u2, vn2);
    lemma_assoc(e3, u3, vn3);
    lemma_assoc(e1, u1, tn1);
    lemma_assoc(e2, u2, tn2);
    lemma_assoc(e3, u3, tn3);
    lemma_ldistrib3(det, e1 * (u1 * vn1), e2 * (u2 * vn2), e3 * (u3 * vn3));
    lemma_ldistrib3(det, e1 * (u1 * tn1), e2 * (u2 * tn2), e3 * (u3 * tn3));
    assert((nn1 * g1 + nn2 * g2) + nn3 * g3 == det * (u * vnnr));
    assert((nn1 * h1 + nn2 * h2) + nn3 * h3 == det * (u * tnnr));
    // Expand the transformed components.
    lemma_ldistrib2(nn1, bigt * g1, q1 * vn4);
    lemma_ldistrib2(nn2, bigt * g2, q2 * vn4);
    lemma_ldistrib2(nn3, bigt * g3, q3 * vn4);
    lemma_assoc(nn1, bigt, g1);
    lemma_comm(nn1, bigt);
    lemma_assoc(bigt, nn1, g1);
    lemma_assoc(nn2, bigt, g2);
    lemma_comm(nn2, bigt);
    lemma_assoc(bigt, nn2, g2);
    lemma_assoc(nn3, bigt, g3);
    lemma_comm(nn3, bigt);
    lemma_assoc(bigt, nn3, g3);
    lemma_assoc(nn1, q1, vn4);
    lemma_assoc(nn2, q2, vn4);
    lemma_assoc(nn3, q3, vn4);
    lemma_mul_neg(nn1, h1);
    lemma_mul_neg(nn2, h2);
    lemma_mul_neg(nn3, h3);
    assert(nn1 * q1 == 0 - nn1 * h1);
    assert(nn2 * q2 == 0 - nn2 * h2);
    assert(nn3 * q3 == 0 - nn3 * h3);
    lemma_mul_neg(nn1 * h1, vn4);
    lemma_mul_neg(nn2 * h2, vn4);
    lemma_mul_neg(nn3 * h3, vn4);
    assert(nn1 * p1 == bigt * (nn1 * g1) - (nn1 * h1) * vn4);
    assert(nn2 * p2 == bigt * (nn2 * g2) - (nn2 * h2) * vn4);
    assert(nn3 * p3 == bigt * (nn3 * g3) - (nn3 * h3) * vn4);
    let qq = (nn1 * p1 + nn2 * p2) + nn3 * p3;
    lemma_ldistrib3(bigt, nn1 * g1, nn2 * g2, nn3 * g3);
    lemma_distrib3(nn1 * h1, nn2 * h2, nn3 * h3, vn4);
    assert(qq == bigt * ((nn1 * g1 + nn2 * g2) + nn3 * g3) - ((nn1 * h1 + nn2 * h2) + nn3 * h3)
        * vn4);
    assert(qq == bigt * (det * (u * vnnr)) - (det * (u * tnnr)) * vn4);
    // Factor the translation denominator out of the row sum.
    lemma_comm(nn1, tdr);
    lemma_assoc(tdr, nn1, p1);
    lemma_comm(nn2, tdr);
    lemma_assoc(tdr, nn2, p2);
    lemma_comm(nn3, tdr);
    lemma_assoc(tdr, nn3, p3);
    lemma_ldistrib3(tdr, nn1 * p1, nn2 * p2, nn3 * p3);
    assert(((nn1 * tdr) * p1 + (nn2 * tdr) * p2) + (nn3 * tdr) * p3 == tdr * qq);
    // The translation contribution cancels.
    assert((tnr * u) * (vn4 * dt) == tdr * ((det * (u * tnnr)) * vn4)) by (nonlinear_arith)
        requires
            dt == det * bigt,
            tnr * bigt == tnnr * tdr,
    ;
    lemma_mul_sub(tdr, bigt * (det * (u * vnnr)), (det * (u * tnnr)) * vn4);
    assert(tdr * qq == tdr * (bigt * (det * (u * vnnr))) - tdr * ((det * (u * tnnr)) * vn4));
    let lhs = (((nn1 * tdr) * p1 + (nn2 * tdr) * p2) + (nn3 * tdr) * p3) + (tnr * u) * (vn4 * dt);
    assert(lhs == tdr * (bigt * (det * (u * vnnr))));
    // Conclude by rearranging one product of six factors.
    lemma_assoc(tdr, bigt * (det * (u * vnnr)), vdr);
    lemma_assoc(bigt, det * (u * vnnr), vdr);
    lemma_assoc(det, u * vnnr, vdr);
    lemma_assoc(u, vnnr, vdr);
    assert((tdr * (bigt * (det * (u * vnnr)))) * vdr == tdr * (bigt * (det * (u * (vnnr * vdr)))));
    assert(vnnr * vdr == vnr * bigv);
    lemma_final_shuffle(tdr, bigt, det, u, vnr, bigv);
    assert((tdr * (bigt * (det * (u * vnnr)))) * vdr == vnr * ((u * tdr) * (dt * bigv)));
}

/// Reassociate a product of six factors into the shape of the goal.
proof fn lemma_final_shuffle(tdr: int, bigt: int, det: int, u: int, vnr: int, bigv: int)
    ensures
        tdr * (bigt * (det * (u * (vnr * bigv)))) == vnr * ((u * tdr) * ((det * bigt) * bigv)),
{
    assert(tdr * (bigt * (det * (u * (vnr * bigv)))) == vnr * ((u * tdr) * ((det * bigt) * bigv)))
        by (nonlinear_arith);
}

/// One row of the transformed-vector computation: the inner product of a row
/// of the inverse with the vector, collapsed onto a single denominator.
proof fn lemma_srow_apply(
    s1: Ratio,
    s2: Ratio,
    s3: Ratio,
    s4: Ratio,
    vx: Ratio,
    vy: Ratio,
    vz: Ratio,
    vw: Ratio,
    w1: int,
    w2: int,
    w3: int,
    q: int,
    det: int,
    bigt: int,
    dt: int,
    vn1: int,
    vn2: int,
    vn3: int,
    vn4: int,
    bigv: int,
    p: int,
)
    requires
        det != 0,
        bigt >= 1,
        bigv >= 1,
        dt == det * bigt,
        req(s1, Ratio { n: w1, d: det }),
        req(s2, Ratio { n: w2, d: det }),
        req(s3, Ratio { n: w3, d: det }),
        req(s4, Ratio { n: q, d: dt }),
        req(vx, Ratio { n: vn1, d: bigv }),
        req(vy, Ratio { n: vn2, d: bigv }),
        req(vz, Ratio { n: vn3, d: bigv }),
        req(vw, Ratio { n: vn4, d: bigv }),
        p == bigt * (((w1 * vn1) + (w2 * vn2)) + (w3 * vn3)) + q * vn4,
    ensures
        req(sdot4(s1, s2, s3, s4, vx, vy, vz, vw), Ratio { n: p, d: dt * bigv }),
{
    let pa = Ratio { n: w1, d: det };
    let pb = Ratio { n: w2, d: det };
    let pc = Ratio { n: w3, d: det };
    let pd = Ratio { n: q, d: dt };
    let qa = Ratio { n: vn1, d: bigv };
    let qb = Ratio { n: vn2, d: bigv };
    let qc = Ratio { n: vn3, d: bigv };
    let qd = Ratio { n: vn4, d: bigv };
    lemma_sdot4_congruence(
        s1,
        s2,
        s3,
        s4,
        vx,
        vy,
        vz,
        vw,
        pa,
        pb,
        pc,
        pd,
        qa,
        qb,
        qc,
        qd,
    );
    let d1 = det * bigv;
    let d2 = dt * bigv;
    assert(dt != 0 && d1 != 0 && d2 != 0 && d1 * d1 != 0 && d2 * d2 != 0 && d1 * bigt == d2 && ((d1
        * d1) * d1) * d2 != 0) by (nonlinear_arith)
        requires
            det != 0,
            bigt >= 1,
            bigv >= 1,
            dt == det * bigt,
            d1 == det * bigv,
            d2 == dt * bigv,
    ;
    let t1 = rmul(pa, qa);
    let t2 = rmul(pb, qb);
    let t3 = rmul(pc, qc);
    let t4 = rmul(pd, qd);
    assert(t1 == Ratio { n: w1 * vn1, d: d1 });
    assert(t2 == Ratio { n: w2 * vn2, d: d1 });
    assert(t3 == Ratio { n: w3 * vn3, d: d1 });
    assert(t4 == Ratio { n: q * vn4, d: d2 });
    let s12n = (w1 * vn1) + (w2 * vn2);
    let s123n = s12n + (w3 * vn3);
    lemma_radd_same_den(w1 * vn1, w2 * vn2, d1);
    lemma_req_add(radd(t1, t2), t3, Ratio { n: s12n, d: d1 }, t3);
    lemma_radd_same_den(s12n, w3 * vn3, d1);
    lemma_req_trans(
        radd(radd(t1, t2), t3),
        radd(Ratio { n: s12n, d: d1 }, t3),
        Ratio { n: s123n, d: d1 },
    );
    lemma_req_scale(Ratio { n: s123n, d: d1 }, bigt);
    assert(Ratio { n: s123n * bigt, d: d1 * bigt } == Ratio { n: s123n * bigt, d: d2 });
    lemma_req_trans(
        radd(radd(t1, t2), t3),
        Ratio { n: s123n, d: d1 },
        Ratio { n: s123n * bigt, d: d2 },
    );
    lemma_req_add(
        radd(radd(t1, t2), t3),
        t4,
        Ratio { n: s123n * bigt, d: d2 },
        t4,
    );
    lemma_radd_same_den(s123n * bigt, q * vn4, d2);
    lemma_req_trans(
        radd(radd(radd(t1, t2), t3), t4),
        radd(Ratio { n: s123n * bigt, d: d2 }, t4),
        Ratio { n: s123n * bigt + q * vn4, d: d2 },
    );
    assert(s123n * bigt + q * vn4 == p) by (nonlinear_arith)
        requires
            p == bigt * s123n + q * vn4,
    ;
    assert(sdot4(pa, pb, pc, pd, qa, qb, qc, qd) == radd(radd(radd(t1, t2), t3), t4));
    lemma_req_trans(
        sdot4(s1, s2, s3, s4, vx, vy, vz, vw),
        sdot4(pa, pb, pc, pd, qa, qb, qc, qd),
        Ratio { n: p, d: d2 },
    );
}

/// One row of the extrinsics applied to the transformed vector returns the
/// matching component of the original vector.
#[verifier::spinoff_prover]
proof fn lemma_erow_apply(
    r1: Ratio,
    r2: Ratio,
    r3: Ratio,
    tr: Ratio,
    x1: Ratio,
    x2: Ratio,
    x3: Ratio,
    x4: Ratio,
    vcomp: Ratio,
    nn1: int,
    nn2: int,
    nn3: int,
    u: int,
    tnnr: int,
    w11: int,
    w12: int,
    w13: int,
    w21: int,
    w22: int,
    w23: int,
    w31: int,
    w32: int,
    w33: int,
    q1: int,
    q2: int,
    q3: int,
    det: int,
    bigt: int,
    dt: int,
    tn1: int,
    tn2: int,
    tn3: int,
    vn1: int,
    vn2: int,
    vn3: int,
    vn4: int,
    bigv: int,
    vnnr: int,
    p1: int,
    p2: int,
    p3: int,
    e1: int,
    e2: int,
    e3: int,
    a11: int,
    a12: int,
    a13: int,
    a21: int,
    a22: int,
    a23: int,
    a31: int,
    a32: int,
    a33: int,
    u1: int,
    u2: int,
    u3: int,
)
    requires
        rwf(r1) && rwf(r2) && rwf(r3) && rwf(tr) && rwf(vcomp),
        x1.d != 0 && x2.d != 0 && x3.d != 0 && x4.d != 0,
        u >= 1,
        det != 0,
        bigt >= 1,
        bigv >= 1,
        dt == det * bigt,
        req(r1, Ratio { n: nn1, d: u }),
        req(r2, Ratio { n: nn2, d: u }),
        req(r3, Ratio { n: nn3, d: u }),
        req(tr, Ratio { n: tnnr, d: bigt }),
        req(x1, Ratio { n: p1, d: dt * bigv }),
        req(x2, Ratio { n: p2, d: dt * bigv }),
        req(x3, Ratio { n: p3, d: dt * bigv }),
        req(x4, Ratio { n: vn4, d: bigv }),
        req(vcomp, Ratio { n: vnnr, d: bigv }),
        w11 == a11 * u1 && w12 == a12 * u2 && w13 == a13 * u3,
        w21 == a21 * u1 && w22 == a22 * u2 && w23 == a23 * u3,
        w31 == a31 * u1 && w32 == a32 * u2 && w33 == a33 * u3,
        q1 == 0 - (((w11 * tn1) + (w12 * tn2)) + (w13 * tn3)),
        q2 == 0 - (((w21 * tn1) + (w22 * tn2)) + (w23 * tn3)),
        q3 == 0 - (((w31 * tn1) + (w32 * tn2)) + (w33 * tn3)),
        p1 == bigt * (((w11 * vn1) + (w12 * vn2)) + (w13 * vn3)) + q1 * vn4,
        p2 == bigt * (((w21 * vn1) + (w22 * vn2)) + (w23 * vn3)) + q2 * vn4,
        p3 == bigt * (((w31 * vn1) + (w32 * vn2)) + (w33 * vn3)) + q3 * vn4,
        (nn1 * a11 + nn2 * a21) + nn3 * a31 == det * e1,
        (nn1 * a12 + nn2 * a22) + nn3 * a32 == det * e2,
        (nn1 * a13 + nn2 * a23) + nn3 * a33 == det * e3,
        (e1 * (u1 * vn1) + e2 * (u2 * vn2)) + e3 * (u3 * vn3) == u * vnnr,
        (e1 * (u1 * tn1) + e2 * (u2 * tn2)) + e3 * (u3 * tn3) == u * tnnr,
    ensures
        req(sdot4(r1, r2, r3, tr, x1, x2, x3, x4), vcomp),
{
    let tnr = tr.n;
    let tdr = tr.d;
    let d2 = dt * bigv;
    let d3 = (u * tdr) * d2;
    assert(d2 != 0 && d3 != 0 && d3 * d3 != 0 && u * tdr != 0 && ((d3 * d3) * d3) * d3 != 0 && u
        != 0 && tdr != 0 && bigv != 0) by (nonlinear_arith)
        requires
            det != 0,
            bigt >= 1,
            bigv >= 1,
            u >= 1,
            tdr >= 1,
            dt == det * bigt,
            d2 == dt * bigv,
            d3 == (u * tdr) * d2,
    ;
    // Bring the row and the transformed vector onto matching denominators.
    lemma_req_scale(Ratio { n: nn1, d: u }, tdr);
    lemma_req_scale(Ratio { n: nn2, d: u }, tdr);
    lemma_req_scale(Ratio { n: nn3, d: u }, tdr);
    lemma_req_trans(r1, Ratio { n: nn1, d: u }, Ratio { n: nn1 * tdr, d: u * tdr });
    lemma_req_trans(r2, Ratio { n: nn2, d: u }, Ratio { n: nn2 * tdr, d: u * tdr });
    lemma_req_trans(r3, Ratio { n: nn3, d: u }, Ratio { n: nn3 * tdr, d: u * tdr });
    lemma_req_scale(tr, u);
    assert(Ratio { n: tr.n * u, d: tr.d * u } == Ratio { n: tnr * u, d: u * tdr }) by {
        assert(tr.d * u == u * tdr) by (nonlinear_arith)
            requires
                tdr == tr.d,
        ;
    }
    lemma_req_scale(Ratio { n: vn4, d: bigv }, dt);
    assert(Ratio { n: vn4 * dt, d: bigv * dt } == Ratio { n: vn4 * dt, d: d2 }) by {
        assert(bigv * dt == d2) by (nonlinear_arith)
            requires
                d2 == dt * bigv,
        ;
    }
    lemma_req_trans(x4, Ratio { n: vn4, d: bigv }, Ratio { n: vn4 * dt, d: d2 });
    let pa = Ratio { n: nn1 * tdr, d: u * tdr };
    let pb = Ratio { n: nn2 * tdr, d: u * tdr };
    let pc = Ratio { n: nn3 * tdr, d: u * tdr };
    let pd = Ratio { n: tnr * u, d: u * tdr };
    let qa = Ratio { n: p1, d: d2 };
    let qb = Ratio { n: p2, d: d2 };
    let qc = Ratio { n: p3, d: d2 };
    let qd = Ratio { n: vn4 * dt, d: d2 };
    lemma_sdot4_congruence(
        r1,
        r2,
        r3,
        tr,
        x1,
        x2,
        x3,
        x4,
        pa,
        pb,
        pc,
        pd,
        qa,
        qb,
        qc,
        qd,
    );
    let t1 = rmul(pa, qa);
    let t2 = rmul(pb, qb);
    let t3 = rmul(pc, qc);
    let t4 = rmul(pd, qd);
    assert(t1 == Ratio { n: (nn1 * tdr) * p1, d: d3 });
    assert(t2 == Ratio { n: (nn2 * tdr) * p2, d: d3 });
    assert(t3 == Ratio { n: (nn3 * tdr) * p3, d: d3 });
    assert(t4 == Ratio { n: (tnr * u) * (vn4 * dt), d: d3 });
    let s12n = (nn1 * tdr) * p1 + (nn2 * tdr) * p2;
    let s123n = s12n + (nn3 * tdr) * p3;
    let numv = s123n + (tnr * u) * (vn4 * dt);
    lemma_radd_same_den((nn1 * tdr) * p1, (nn2 * tdr) * p2, d3);
    lemma_req_add(radd(t1, t2), t3, Ratio { n: s12n, d: d3 }, t3);
    lemma_radd_same_den(s12n, (nn3 * tdr) * p3, d3);
    lemma_req_trans(
        radd(radd(t1, t2), t3),
        radd(Ratio { n: s12n, d: d3 }, t3),
        Ratio { n: s123n, d: d3 },
    );
    lemma_req_add(
        radd(radd(t1, t2), t3),
        t4,
        Ratio { n: s123n, d: d3 },
        t4,
    );
    lemma_radd_same_den(s123n, (tnr * u) * (vn4 * dt), d3);
    lemma_req_trans(
        radd(radd(radd(t1, t2), t3), t4),
        radd(Ratio { n: s123n, d: d3 }, t4),
        Ratio { n: numv, d: d3 },
    );
    assert(sdot4(pa, pb, pc, pd, qa, qb, qc, qd) == radd(radd(radd(t1, t2), t3), t4));
    lemma_req_trans(
        sdot4(r1, r2, r3, tr, x1, x2, x3, x4),
        sdot4(pa, pb, pc, pd, qa, qb, qc, qd),
        Ratio { n: numv, d: d3 },
    );
    lemma_row_identity(
        nn1,
        nn2,
        nn3,
        tnr,
        tdr,
        tnnr,
        u,
        w11,
        w12,
        w13,
        w21,
        w22,
        w23,
        w31,
        w32,
        w33,
        q1,
        q2,
        q3,
        det,
        bigt,
        dt,
        tn1,
        tn2,
        tn3,
        vn1,
        vn2,
        vn3,
        vn4,
        bigv,
        vcomp.n,
        vcomp.d,
        vnnr,
        p1,
        p2,
        p3,
        e1,
        e2,
        e3,
        a11,
        a12,
        a13,
        a21,
        a22,
        a23,
        a31,
        a32,
        a33,
        u1,
        u2,
        u3,
    );
    assert(numv * vcomp.d == vcomp.n * d3);
    lemma_req_trans(
        sdot4(r1, r2, r3, tr, x1, x2, x3, x4),
        Ratio { n: numv, d: d3 },
        vcomp,
    );
}

/// The computed matrix undoes the extrinsics on every well-formed vector.
#[verifier::spinoff_prover]
proof fn lemma_inverse_correct(
    rv: Mat3Val,
    tv: Vec3Val,
    sv: Mat4Val,
    n11: int,
    n12: int,
    n13: int,
    n21: int,
    n22: int,
    n23: int,
    n31: int,
    n32: int,
    n33: int,
    u1: int,
    u2: int,
    u3: int,
    a11: int,
    a12: int,
    a13: int,
    a21: int,
    a22: int,
    a23: int,
    a31: int,
    a32: int,
    a33: int,
    det: int,
    w11: int,
    w12: int,
    w13: int,
    w21: int,
    w22: int,
    w23: int,
    w31: int,
    w32: int,
    w33: int,
    bigt: int,
    tn1: int,
    tn2: int,
    tn3: int,
    q1: int,
    q2: int,
    q3: int,
    dt: int,
)
    requires
        mat3_wf(rv),
        vec3_wf(tv),
        mat4_wf(sv),
        u1 >= 1 && u2 >= 1 && u3 >= 1 && bigt >= 1,
        det != 0,
        dt == det * bigt,
        req(rv.m11, Ratio { n: n11, d: u1 }),
        req(rv.m12, Ratio { n: n12, d: u1 }),
        req(rv.m13, Ratio { n: n13, d: u1 }),
        req(rv.m21, Ratio { n: n21, d: u2 }),
        req(rv.m22, Ratio { n: n22, d: u2 }),
        req(rv.m23, Ratio { n: n23, d: u2 }),
        req(rv.m31, Ratio { n: n31, d: u3 }),
        req(rv.m32, Ratio { n: n32, d: u3 }),
        req(rv.m33, Ratio { n: n33, d: u3 }),
        req(tv.x, Ratio { n: tn1, d: bigt }),
        req(tv.y, Ratio { n: tn2, d: bigt }),
        req(tv.z, Ratio { n: tn3, d: bigt }),
        a11 == n22 * n33 - n23 * n32,
        a12 == n13 * n32 - n12 * n33,
        a13 == n12 * n23 - n13 * n22,
        a21 == n23 * n31 - n21 * n33,
        a22 == n11 * n33 - n13 * n31,
        a23 == n13 * n21 - n11 * n23,
        a31 == n21 * n32 - n22 * n31,
        a32 == n12 * n31 - n11 * n32,
        a33 == n11 * n22 - n12 * n21,
        det == (n11 * (n22 * n33 - n23 * n32) - n12 * (n21 * n33 - n23 * n31)) + n13 * (n21 * n32
            - n22 * n31),
        w11 == a11 * u1 && w12 == a12 * u2 && w13 == a13 * u3,
        w21 == a21 * u1 && w22 == a22 * u2 && w23 == a23 * u3,
        w31 == a31 * u1 && w32 == a32 * u2 && w33 == a33 * u3,
        q1 == 0 - (((w11 * tn1) + (w12 * tn2)) + (w13 * tn3)),
        q2 == 0 - (((w21 * tn1) + (w22 * tn2)) + (w23 * tn3)),
        q3 == 0 - (((w31 * tn1) + (w32 * tn2)) + (w33 * tn3)),
        req(sv.m11, Ratio { n: w11, d: det }),
        req(sv.m12, Ratio { n: w12, d: det }),
        req(sv.m13, Ratio { n: w13, d: det }),
        req(sv.m21, Ratio { n: w21, d: det }),
        req(sv.m22, Ratio { n: w22, d: det }),
        req(sv.m23, Ratio { n: w23, d: det }),
        req(sv.m31, Ratio { n: w31, d: det }),
        req(sv.m32, Ratio { n: w32, d: det }),
        req(sv.m33, Ratio { n: w33, d: det }),
        req(sv.m14, Ratio { n: q1, d: dt }),
        req(sv.m24, Ratio { n: q2, d: dt }),
        req(sv.m34, Ratio { n: q3, d: dt }),
        sv.m41 == rzero() && sv.m42 == rzero() && sv.m43 == rzero() && sv.m44 == rone(),
    ensures
        right_inverse(extrinsics_of(rv, tv), sv),
{
    let e = extrinsics_of(rv, tv);
    lemma_adjugate(n11, n12, n13, n21, n22, n23, n31, n32, n33, a11, a12, a13, a21, a22, a23, a31, a32, a33, det);
    assert forall|v: Vec4Val| vec4_wf(v) implies vec4_eq(
        #[trigger] m4_mul_v4(e, m4_mul_v4(sv, v)),
        v,
    ) by {
        let bigv = ((v.x.d * v.y.d) * v.z.d) * v.w.d;
        let vn1 = ((v.x.n * v.y.d) * v.z.d) * v.w.d;
        let vn2 = ((v.y.n * v.x.d) * v.z.d) * v.w.d;
        let vn3 = ((v.z.n * v.x.d) * v.y.d) * v.w.d;
        let vn4 = ((v.w.n * v.x.d) * v.y.d) * v.z.d;
        lemma_vec4_scale(v, vn1, vn2, vn3, vn4, bigv);
        let p1 = bigt * (((w11 * vn1) + (w12 * vn2)) + (w13 * vn3)) + q1 * vn4;
        let p2 = bigt * (((w21 * vn1) + (w22 * vn2)) + (w23 * vn3)) + q2 * vn4;
        let p3 = bigt * (((w31 * vn1) + (w32 * vn2)) + (w33 * vn3)) + q3 * vn4;
        let sx = m4_mul_v4(sv, v);
        lemma_srow_apply(
            sv.m11, sv.m12, sv.m13, sv.m14, v.x, v.y, v.z, v.w,
            w11, w12, w13, q1, det, bigt, dt, vn1, vn2, vn3, vn4, bigv, p1,
        );
        lemma_srow_apply(
            sv.m21, sv.m22, sv.m23, sv.m24, v.x, v.y, v.z, v.w,
            w21, w22, w23, q2, det, bigt, dt, vn1, vn2, vn3, vn4, bigv, p2,
        );
        lemma_srow_apply(
            sv.m31, sv.m32, sv.m33, sv.m34, v.x, v.y, v.z, v.w,
            w31, w32, w33, q3, det, bigt, dt, vn1, vn2, vn3, vn4, bigv, p3,
        );
        lemma_bottom_row(v.x, v.y, v.z, v.w);
        assert(sx.x == sdot4(sv.m11, sv.m12, sv.m13, sv.m14, v.x, v.y, v.z, v.w));
        assert(sx.w == sdot4(rzero(), rzero(), rzero(), rone(), v.x, v.y, v.z, v.w));
        lemma_req_trans(sx.w, v.w, Ratio { n: vn4, d: bigv });
        // Denominators of the transformed components are nonzero.
        crate::linalg::lemma_sdot4_den_pos_pub(sv.m11, sv.m12, sv.m13, sv.m14, v.x, v.y, v.z, v.w);
        crate::linalg::lemma_sdot4_den_pos_pub(sv.m21, sv.m22, sv.m23, sv.m24, v.x, v.y, v.z, v.w);
        crate::linalg::lemma_sdot4_den_pos_pub(sv.m31, sv.m32, sv.m33, sv.m34, v.x, v.y, v.z, v.w);
        crate::linalg::lemma_sdot4_den_pos_pub(sv.m41, sv.m42, sv.m43, sv.m44, v.x, v.y, v.z, v.w);
        lemma_erow_apply(
            rv.m11, rv.m12, rv.m13, tv.x, sx.x, sx.y, sx.z, sx.w, v.x,
            n11, n12, n13, u1, tn1,
            w11, w12, w13, w21, w22, w23, w31, w32, w33,
            q1, q2, q3, det, bigt, dt, tn1, tn2, tn3,
            vn1, vn2, vn3, vn4, bigv, vn1, p1, p2, p3,
            1, 0, 0,
            a11, a12, a13, a21, a22, a23, a31, a32, a33, u1, u2, u3,
        );
        lemma_erow_apply(
            rv.m21, rv.m22, rv.m23, tv.y, sx.x, sx.y, sx.z, sx.w, v.y,
            n21, n22, n23, u2, tn2,
            w11, w12, w13, w21, w22, w23, w31, w32, w33,
            q1, q2, q3, det, bigt, dt, tn1, tn2, tn3,
            vn1, vn2, vn3, vn4, bigv, vn2, p1, p2, p3,
            0, 1, 0,
            a11, a12, a13, a21, a22, a23, a31, a32, a33, u1, u2, u3,
        );
        lemma_erow_apply(
            rv.m31, rv.m32, rv.m33, tv.z, sx.x, sx.y, sx.z, sx.w, v.z,
            n31, n32, n33, u3, tn3,
            w11, w12, w13, w21, w22, w23, w31, w32, w33,
            q1, q2, q3, det, bigt, dt, tn1, tn2, tn3,
            vn1, vn2, vn3, vn4, bigv, vn3, p1, p2, p3,
            0, 0, 1,
            a11, a12, a13, a21, a22, a23, a31, a32, a33, u1, u2, u3,
        );
        let o = m4_mul_v4(e, sx);
        assert(o.x == sdot4(rv.m11, rv.m12, rv.m13, tv.x, sx.x, sx.y, sx.z, sx.w));
        assert(o.y == sdot4(rv.m21, rv.m22, rv.m23, tv.y, sx.x, sx.y, sx.z, sx.w));
        assert(o.z == sdot4(rv.m31, rv.m32, rv.m33, tv.z, sx.x, sx.y, sx.z, sx.w));
        assert(o.w == sdot4(rzero(), rzero(), rzero(), rone(), sx.x, sx.y, sx.z, sx.w));
        lemma_bottom_row(sx.x, sx.y, sx.z, sx.w);
        lemma_req_trans(o.w, sx.w, v.w);
    }
}

} // verus!
