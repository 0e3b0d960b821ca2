//! The virtual camera: extrinsics, intrinsics, visibility and movement.
//!
//! A camera owns an orientation, a position, a pixel resolution and a field
//! of view, together with five derived matrices. Derived state is refreshed
//! by `update_camera`; every movement and rotation helper ends by refreshing,
//! so a camera mutated only through them never serves stale matrices. The
//! field of view is carried as the tangent of the half-angle, supplied by the
//! caller; exact values exist for the common right-angle setups and the
//! surrounding application approximates the rest.

use crate::extrinsics::{extrinsics_of, invert_core, right_inverse, small_mat3, small_vec3};
use crate::geometry::{Line, PerspectiveObject, Point, Point_Construct, Rotatable, Translatable};
use crate::linalg::{
    det3, m3_mul_m3, m4_id, m4_mul_m4, m4_mul_v4, m4v4_fits, mat3_eq, mat3_mul, mat3_wf, mat4_eq,
    mat4_identity, mat4_mul, mat4_vec_mul, mat4_wf, sdot4, vec4_eq, vec4_wf, Mat3, Mat3Val, Mat4,
    Mat4Val, Vec3, Vec3Val, Vec4, Vec4Val,
};
use crate::rational::{
    radd, rat_abs, rat_add, rat_div, rat_is_zero, rat_le, rat_mul, rat_sub, rdiv, req, rint, rle,
    rlt, rmul, rone, rwf, rzero, Rat, Ratio,
};
use vstd::prelude::*;

verus! {

/// Outcome of an extrinsics refresh.
#[derive(Clone, Copy, Debug, PartialEq, Eq, Structural)]
pub enum ExtrinsicsStatus {
    /// The inverse was computed and undoes the extrinsics.
    Inverted,
    /// The orientation is singular; the inverse fell back to the identity.
    Degenerate,
    /// The arithmetic left the representable range; the inverse fell back to
    /// the identity.
    OutOfRange,
}

/// Outcome of a full camera refresh.
#[derive(Clone, Copy, Debug, PartialEq, Eq, Structural)]
pub enum CameraStatus {
    /// Every derived matrix was recomputed.
    Refreshed,
    /// Recomputed, but the orientation is singular and the inverse fell back
    /// to the identity.
    Degenerate,
    /// The arithmetic left the representable range; the camera is unchanged.
    OutOfRange,
}

/// A virtual pinhole camera.
#[derive(Clone, Copy, Debug)]
pub struct Camera {
    pub orientation: Mat3,
    pub centre: Point,
    pub calibration_matrix: Mat4,
    pub camera_extrinsics: Mat4,
    pub extrinsics_inverse: Mat4,
    pub camera_matrix_superior: Mat4,
    pub basis_change_matrix: Mat3,
    pub tan_half_fov_x: Rat,
    pub tan_half_fov_y: Rat,
    pub screen_x: i32,
    pub screen_y: i32,
    pub min_depth_difference: Rat,
    pub max_depth_difference: Rat,
}

/// The spatial part of the camera position.
pub open spec fn centre_xyz(c: Camera) -> Vec3Val {
    Vec3Val { x: c.centre@.x, y: c.centre@.y, z: c.centre@.z }
}

/// The calibration matrix the camera state calls for: focal length on the
/// diagonal, principal point at half the screen width on both axes (the
/// width is reused for the vertical axis deliberately, preserving the
/// historical projection).
pub open spec fn calib_spec(c: Camera) -> Mat4Val {
    let focal = rdiv(rint(c.screen_x as int), rmul(rint(2), c.tan_half_fov_x@));
    let cx = Ratio { n: c.screen_x as int, d: 2 };
    Mat4Val {
        m11: focal,
        m12: rzero(),
        m13: cx,
        m14: rzero(),
        m21: rzero(),
        m22: focal,
        m23: cx,
        m24: rzero(),
        m31: rzero(),
        m32: rzero(),
        m33: rone(),
        m34: rzero(),
        m41: rzero(),
        m42: rzero(),
        m43: rzero(),
        m44: rone(),
    }
}

/// Structural well-formedness of the camera state.
pub open spec fn camera_wf(c: Camera) -> bool {
    &&& mat3_wf(c.orientation@)
    &&& vec4_wf(c.centre@)
    &&& mat4_wf(c.calibration_matrix@)
    &&& mat4_wf(c.camera_extrinsics@)
    &&& mat4_wf(c.extrinsics_inverse@)
    &&& mat4_wf(c.camera_matrix_superior@)
    &&& mat3_wf(c.basis_change_matrix@)
    &&& rwf(c.tan_half_fov_x@) && rwf(c.tan_half_fov_y@)
    &&& 0 < c.tan_half_fov_x@.n && c.tan_half_fov_x@.n <= 0x100000 && c.tan_half_fov_x@.d
        <= 0x100000
    &&& 0 < c.tan_half_fov_y@.n && c.tan_half_fov_y@.n <= 0x100000 && c.tan_half_fov_y@.d
        <= 0x100000
    &&& 1 <= c.screen_x <= 16384 && 1 <= c.screen_y <= 16384
    &&& rwf(c.min_depth_difference@) && rwf(c.max_depth_difference@)
}

/// The derived matrices agree with the core state.
pub open spec fn camera_synced(c: Camera) -> bool {
    &&& c.camera_extrinsics@ == extrinsics_of(c.orientation@, centre_xyz(c))
    &&& c.basis_change_matrix@ == c.orientation@
    &&& mat4_eq(c.calibration_matrix@, calib_spec(c))
    &&& mat4_eq(
        c.camera_matrix_superior@,
        m4_mul_m4(c.calibration_matrix@, c.camera_extrinsics@),
    )
}

/// The stored inverse undoes the stored extrinsics on every vector.
pub open spec fn inverse_valid(c: Camera) -> bool {
    right_inverse(c.camera_extrinsics@, c.extrinsics_inverse@)
}

/// Camera-local coordinates of a world point, as the camera computes them:
/// through the stored inverse extrinsics.
pub open spec fn local_of(c: Camera, p: Point) -> Vec4Val {
    m4_mul_v4(c.extrinsics_inverse@, p@)
}

/// A point is visible when its camera-local depth reaches the minimum depth
/// threshold.
pub open spec fn point_visible(c: Camera, p: Point) -> bool {
    rle(c.min_depth_difference@, local_of(c, p).z)
}

/// An object is visible when any of its constituent points is: a line whose
/// far end lies behind the camera is still drawn by its near end.
pub open spec fn object_visible(c: Camera, o: coordinate_object) -> bool {
    exists|i: int|
        0 <= i < o.points_spec().len() && point_visible(c, #[trigger] o.points_spec()[i])
}

/// Everything the world registry can hold.
#[allow(non_camel_case_types)]
#[derive(Clone, Debug)]
pub enum coordinate_object {
    Camera_object(Camera),
    Point_object(Point),
    Perspective_object(PerspectiveObject),
    Line_object(Line),
}

impl Point_Construct for coordinate_object {
    open spec fn points_wf(&self) -> bool {
        match self {
            coordinate_object::Camera_object(c) => c.points_wf(),
            coordinate_object::Point_object(p) => p.points_wf(),
            coordinate_object::Perspective_object(o) => o.points_wf(),
            coordinate_object::Line_object(l) => l.points_wf(),
        }
    }

    open spec fn points_spec(&self) -> Seq<Point> {
        match self {
            coordinate_object::Camera_object(c) => c.points_spec(),
            coordinate_object::Point_object(p) => p.points_spec(),
            coordinate_object::Perspective_object(o) => o.points_spec(),
            coordinate_object::Line_object(l) => l.points_spec(),
        }
    }

    fn get_points(&self) -> (r: Vec<Point>) {
        match self {
            coordinate_object::Camera_object(c) => c.get_points(),
            coordinate_object::Point_object(p) => p.get_points(),
            coordinate_object::Perspective_object(o) => o.get_points(),
            coordinate_object::Line_object(l) => l.get_points(),
        }
    }
}

impl Point_Construct for Camera {
    open spec fn points_wf(&self) -> bool {
        vec4_wf(self.centre@)
    }

    open spec fn points_spec(&self) -> Seq<Point> {
        seq![self.centre]
    }

    fn get_points(&self) -> (r: Vec<Point>) {
        let mut v: Vec<Point> = Vec::new();
        v.push(self.centre);
        proof {
            assert(v@ =~= seq![self.centre]);
        }
        v
    }
}

/// The determinant of the identity orientation is one, not zero.
proof fn lemma_det3_id_nonzero()
    ensures
        !req(det3(crate::linalg::m3_id()), rzero()),
{
    let m = crate::linalg::m3_id();
    let i1 = crate::rational::rsub(rmul(m.m22, m.m33), rmul(m.m23, m.m32));
    let i2 = crate::rational::rsub(rmul(m.m21, m.m33), rmul(m.m23, m.m31));
    let i3 = crate::rational::rsub(rmul(m.m21, m.m32), rmul(m.m22, m.m31));
    assert(i1.n == 1 && i1.d == 1);
    assert(i2.n == 0 && i2.d == 1);
    assert(i3.n == 0 && i3.d == 1);
    let c1 = rmul(m.m11, i1);
    let c2 = rmul(m.m12, i2);
    let c3 = rmul(m.m13, i3);
    assert(c1.n == 1 && c1.d == 1 && c2.n == 0 && c2.d == 1 && c3.n == 0 && c3.d == 1);
    let d12 = crate::rational::rsub(c1, c2);
    assert(d12.n == 1 && d12.d == 1);
    assert(det3(m) == radd(d12, c3));
    assert(det3(m).n == 1 && det3(m).d == 1);
}

/// Build the rigid `[R | t; 0 0 0 1]` matrix.
fn build_extrinsics(r: &Mat3, t: &Point) -> (e: Mat4)
    ensures
        e@ == extrinsics_of(r@, Vec3Val { x: t@.x, y: t@.y, z: t@.z }),
{
    let z = Rat::zero();
    let o = Rat::one();
    Mat4 {
        m11: r.m11,
        m12: r.m12,
        m13: r.m13,
        m14: t.point.x,
        m21: r.m21,
        m22: r.m22,
        m23: r.m23,
        m24: t.point.y,
        m31: r.m31,
        m32: r.m32,
        m33: r.m33,
        m34: t.point.z,
        m41: z,
        m42: z,
        m43: z,
        m44: o,
    }
}

/// The stored shape of a freshly computed calibration matrix: a bounded
/// focal entry repeated on the diagonal, the principal point in halves, and
/// exact zeros and ones elsewhere.
pub open spec fn calib_shape(m: Mat4Val, sx: int) -> bool {
    &&& m.m11 == m.m22
    &&& 1 <= m.m11.d <= 0x200000 && -0x400000000 <= m.m11.n <= 0x400000000
    &&& m.m13 == (Ratio { n: sx, d: 2 }) && m.m23 == m.m13
    &&& m.m12 == rzero() && m.m14 == rzero() && m.m21 == rzero() && m.m24 == rzero()
    &&& m.m31 == rzero() && m.m32 == rzero() && m.m33 == rone() && m.m34 == rzero()
    &&& m.m41 == rzero() && m.m42 == rzero() && m.m43 == rzero() && m.m44 == rone()
}

/// A calibration row with the focal entry first fits against a column of
/// small entries.
proof fn lemma_fits_frow(f: Ratio, cx: Ratio, e1: Ratio, e2: Ratio, e3: Ratio, e4: Ratio)
    requires
        1 <= f.d <= 0x200000,
        -0x400000000 <= f.n <= 0x400000000,
        cx.d == 2,
        -16384 <= cx.n <= 16384,
        1 <= e1.d <= 2 && -0x20000 <= e1.n <= 0x20000,
        1 <= e2.d <= 2 && -0x20000 <= e2.n <= 0x20000,
        1 <= e3.d <= 2 && -0x20000 <= e3.n <= 0x20000,
        1 <= e4.d <= 2 && -0x20000 <= e4.n <= 0x20000,
    ensures
        crate::linalg::sdot4_fits(f, rzero(), cx, rzero(), e1, e2, e3, e4),
        crate::linalg::sdot4_fits(rzero(), f, cx, rzero(), e1, e2, e3, e4),
{
    assert(((f.d * e1.d) * (1 * e2.d)) * ((2 * e3.d) * (1 * e4.d)) <= 0x10000000
        && -0x100000000000000 <= (f.n * e1.n) * ((1 * e2.d) * ((2 * e3.d) * (1 * e4.d)))
        <= 0x100000000000000 && -0x100000000000000 <= (cx.n * e3.n) * ((f.d * e1.d) * ((1 * e2.d)
        * (1 * e4.d))) <= 0x100000000000000) by (nonlinear_arith)
        requires
            1 <= f.d <= 0x200000,
            -0x400000000 <= f.n <= 0x400000000,
            cx.d == 2,
            -16384 <= cx.n <= 16384,
            1 <= e1.d <= 2 && -0x20000 <= e1.n <= 0x20000,
            1 <= e2.d <= 2 && -0x20000 <= e2.n <= 0x20000,
            1 <= e3.d <= 2 && -0x20000 <= e3.n <= 0x20000,
            1 <= e4.d <= 2 && -0x20000 <= e4.n <= 0x20000,
    ;
    assert(crate::linalg::sdot4_fits(f, rzero(), cx, rzero(), e1, e2, e3, e4)) by {
        assert((((f.d * e1.d) * (1 * e2.d)) * (2 * e3.d)) * (1 * e4.d) == ((f.d * e1.d) * (1
            * e2.d)) * ((2 * e3.d) * (1 * e4.d))) by (nonlinear_arith);
        assert((0 * e2.n) * ((f.d * e1.d) * ((2 * e3.d) * (1 * e4.d))) == 0) by (nonlinear_arith);
        assert((0 * e4.n) * ((f.d * e1.d) * ((1 * e2.d) * (2 * e3.d))) == 0) by (nonlinear_arith);
        assert((f.n * e1.n) * ((1 * e2.d) * ((2 * e3.d) * (1 * e4.d))) == (f.n * e1.n) * ((1
            * e2.d) * ((2 * e3.d) * (1 * e4.d))));
    }
    assert(crate::linalg::sdot4_fits(rzero(), f, cx, rzero(), e1, e2, e3, e4)) by {
        assert(-0x100000000000000 <= (f.n * e2.n) * ((1 * e1.d) * ((2 * e3.d) * (1 * e4.d)))
            <= 0x100000000000000 && -0x100000000000000 <= (cx.n * e3.n) * ((1 * e1.d) * ((f.d
            * e2.d) * (1 * e4.d))) <= 0x100000000000000 && (((1 * e1.d) * (f.d * e2.d)) * (2
            * e3.d)) * (1 * e4.d) <= 0x10000000) by (nonlinear_arith)
            requires
                1 <= f.d <= 0x200000,
                -0x400000000 <= f.n <= 0x400000000,
                cx.d == 2,
                -16384 <= cx.n <= 16384,
                1 <= e1.d <= 2 && -0x20000 <= e1.n <= 0x20000,
                1 <= e2.d <= 2 && -0x20000 <= e2.n <= 0x20000,
                1 <= e3.d <= 2 && -0x20000 <= e3.n <= 0x20000,
                1 <= e4.d <= 2 && -0x20000 <= e4.n <= 0x20000,
        ;
        assert((0 * e1.n) * ((f.d * e2.d) * ((2 * e3.d) * (1 * e4.d))) == 0) by (nonlinear_arith);
        assert((0 * e4.n) * ((1 * e1.d) * ((f.d * e2.d) * (2 * e3.d))) == 0) by (nonlinear_arith);
    }
}

/// The unit rows of the calibration matrix fit against a column of small
/// entries.
proof fn lemma_fits_unitrow(e1: Ratio, e2: Ratio, e3: Ratio, e4: Ratio)
    requires
        1 <= e1.d <= 2 && -0x20000 <= e1.n <= 0x20000,
        1 <= e2.d <= 2 && -0x20000 <= e2.n <= 0x20000,
        1 <= e3.d <= 2 && -0x20000 <= e3.n <= 0x20000,
        1 <= e4.d <= 2 && -0x20000 <= e4.n <= 0x20000,
    ensures
        crate::linalg::sdot4_fits(rzero(), rzero(), rone(), rzero(), e1, e2, e3, e4),
        crate::linalg::sdot4_fits(rzero(), rzero(), rzero(), rone(), e1, e2, e3, e4),
{
    assert((((1 * e1.d) * (1 * e2.d)) * (1 * e3.d)) * (1 * e4.d) <= 16 && -0x400000 <= (1 * e3.n)
        * ((1 * e1.d) * ((1 * e2.d) * (1 * e4.d))) <= 0x400000 && -0x400000 <= (1 * e4.n) * ((1
        * e1.d) * ((1 * e2.d) * (1 * e3.d))) <= 0x400000 && (0 * e1.n) * ((1 * e2.d) * ((1 * e3.d)
        * (1 * e4.d))) == 0 && (0 * e2.n) * ((1 * e1.d) * ((1 * e3.d) * (1 * e4.d))) == 0 && (0
        * e3.n) * ((1 * e1.d) * ((1 * e2.d) * (1 * e4.d))) == 0 && (0 * e4.n) * ((1 * e1.d) * ((1
        * e2.d) * (1 * e3.d))) == 0) by (nonlinear_arith)
        requires
            1 <= e1.d <= 2 && -0x20000 <= e1.n <= 0x20000,
            1 <= e2.d <= 2 && -0x20000 <= e2.n <= 0x20000,
            1 <= e3.d <= 2 && -0x20000 <= e3.n <= 0x20000,
            1 <= e4.d <= 2 && -0x20000 <= e4.n <= 0x20000,
    ;
}

/// Every entry of a matrix is a rational in halves with numerator magnitude
/// at most 131072.
pub open spec fn mat4_small(m: Mat4Val) -> bool {
    &&& 1 <= m.m11.d <= 2 && -0x20000 <= m.m11.n <= 0x20000
    &&& 1 <= m.m12.d <= 2 && -0x20000 <= m.m12.n <= 0x20000
    &&& 1 <= m.m13.d <= 2 && -0x20000 <= m.m13.n <= 0x20000
    &&& 1 <= m.m14.d <= 2 && -0x20000 <= m.m14.n <= 0x20000
    &&& 1 <= m.m21.d <= 2 && -0x20000 <= m.m21.n <= 0x20000
    &&& 1 <= m.m22.d <= 2 && -0x20000 <= m.m22.n <= 0x20000
    &&& 1 <= m.m23.d <= 2 && -0x20000 <= m.m23.n <= 0x20000
    &&& 1 <= m.m24.d <= 2 && -0x20000 <= m.m24.n <= 0x20000
    &&& 1 <= m.m31.d <= 2 && -0x20000 <= m.m31.n <= 0x20000
    &&& 1 <= m.m32.d <= 2 && -0x20000 <= m.m32.n <= 0x20000
    &&& 1 <= m.m33.d <= 2 && -0x20000 <= m.m33.n <= 0x20000
    &&& 1 <= m.m34.d <= 2 && -0x20000 <= m.m34.n <= 0x20000
    &&& 1 <= m.m41.d <= 2 && -0x20000 <= m.m41.n <= 0x20000
    &&& 1 <= m.m42.d <= 2 && -0x20000 <= m.m42.n <= 0x20000
    &&& 1 <= m.m43.d <= 2 && -0x20000 <= m.m43.n <= 0x20000
    &&& 1 <= m.m44.d <= 2 && -0x20000 <= m.m44.n <= 0x20000
}

/// A calibration matrix with bounded focal entry multiplies any small
/// matrix without leaving the representable range.
proof fn lemma_calib_mul_fits(cv: Mat4Val, ev: Mat4Val)
    requires
        exists|sx: int| -16384 <= sx <= 16384 && #[trigger] calib_shape(cv, sx),
        mat4_small(ev),
    ensures
        crate::linalg::m4m4_fits(cv, ev),
{
    lemma_fits_frow(cv.m11, cv.m13, ev.m11, ev.m21, ev.m31, ev.m41);
    lemma_fits_frow(cv.m11, cv.m13, ev.m12, ev.m22, ev.m32, ev.m42);
    lemma_fits_frow(cv.m11, cv.m13, ev.m13, ev.m23, ev.m33, ev.m43);
    lemma_fits_frow(cv.m11, cv.m13, ev.m14, ev.m24, ev.m34, ev.m44);
    lemma_fits_unitrow(ev.m11, ev.m21, ev.m31, ev.m41);
    lemma_fits_unitrow(ev.m12, ev.m22, ev.m32, ev.m42);
    lemma_fits_unitrow(ev.m13, ev.m23, ev.m33, ev.m43);
    lemma_fits_unitrow(ev.m14, ev.m24, ev.m34, ev.m44);
}

/// Compute the calibration matrix for a given width and half-angle tangent.
fn compute_calibration(screen_x: i32, tan_half: Rat) -> (r: Mat4)
    requires
        1 <= screen_x <= 16384,
        rwf(tan_half@),
        0 < tan_half@.n,
        tan_half@.n <= 0x100000,
        tan_half@.d <= 0x100000,
    ensures
        mat4_wf(r@),
        ({
            let focal = rdiv(rint(screen_x as int), rmul(rint(2), tan_half@));
            let cx = Ratio { n: screen_x as int, d: 2 };
            &&& req(r@.m11, focal) && req(r@.m22, focal)
            &&& r@.m13 == cx && r@.m23 == cx
            &&& calib_shape(r@, screen_x as int)
        }),
{
    // The focal length is the width times the tangent's denominator over
    // twice its numerator: exactly width / (2 * tan_half).
    let num_raw: i128 = crate::rational::mul_wide(screen_x as i64, tan_half.d);
    let den_raw: i128 = crate::rational::mul_wide(2, tan_half.n);
    proof {
        assert(1 <= den_raw as int <= 0x200000 && -0x400000000 <= num_raw as int <= 0x400000000)
            by (nonlinear_arith)
            requires
                num_raw as int == (screen_x as int) * tan_half@.d,
                den_raw as int == 2 * tan_half@.n,
                1 <= screen_x as int <= 16384,
                0 < tan_half@.n <= 0x100000,
                1 <= tan_half@.d <= 0x100000,
        ;
    }
    let focal = match crate::rational::reduce128(num_raw, den_raw) {
        Some(v) => v,
        None => {
            proof {
                assert(false);
            }
            Rat::one()
        },
    };
    proof {
        let fs = rdiv(rint(screen_x as int), rmul(rint(2), tan_half@));
        assert(fs == (Ratio { n: num_raw as int, d: den_raw as int }));
    }
    let cx = Rat { n: screen_x as i64, d: 2 };
    let z = Rat::zero();
    let o = Rat::one();
    Mat4 {
        m11: focal,
        m12: z,
        m13: cx,
        m14: z,
        m21: z,
        m22: focal,
        m23: cx,
        m24: z,
        m31: z,
        m32: z,
        m33: o,
        m34: z,
        m41: z,
        m42: z,
        m43: z,
        m44: o,
    }
}

impl Camera {
    /// A camera at unit depth with identity orientation, a square default
    /// screen and a default field of view. As in the hand-built original,
    /// construction computes the extrinsics, their inverse, the calibration
    /// matrix and the combined matrix; the change-of-basis matrix stays at
    /// zero until the first full refresh.
    pub fn new() -> (r: Camera)
        ensures
            camera_wf(r),
            r.orientation@ == crate::linalg::m3_id(),
            r.centre@ == (Vec4Val { x: rzero(), y: rzero(), z: rone(), w: rone() }),
            r.screen_x == 128 && r.screen_y == 128,
            r.min_depth_difference@ == rint(1),
            r.max_depth_difference@ == rint(1200),
            r.tan_half_fov_x@ == (Ratio { n: 7, d: 10 }),
            r.tan_half_fov_y@ == (Ratio { n: 7, d: 10 }),
            r.camera_extrinsics@ == extrinsics_of(
                crate::linalg::m3_id(),
                Vec3Val { x: rzero(), y: rzero(), z: rone() },
            ),
            inverse_valid(r),
            !req(det3(r.orientation@), rzero()),
            mat4_eq(r.calibration_matrix@, calib_spec(r)),
            mat4_eq(
                r.camera_matrix_superior@,
                m4_mul_m4(r.calibration_matrix@, r.camera_extrinsics@),
            ),
            r.basis_change_matrix@.m11 == rzero() && r.basis_change_matrix@.m12 == rzero(),
            r.basis_change_matrix@.m13 == rzero() && r.basis_change_matrix@.m21 == rzero(),
            r.basis_change_matrix@.m22 == rzero() && r.basis_change_matrix@.m23 == rzero(),
            r.basis_change_matrix@.m31 == rzero() && r.basis_change_matrix@.m32 == rzero(),
            r.basis_change_matrix@.m33 == rzero(),
    {
        let z = Rat::zero();
        let o = Rat::one();
        let mut cam = Camera {
            orientation: crate::linalg::mat3_identity(),
            centre: Point::new(z, z, z, z),
            calibration_matrix: mat4_identity(),
            camera_extrinsics: mat4_identity(),
            extrinsics_inverse: mat4_identity(),
            camera_matrix_superior: mat4_identity(),
            basis_change_matrix: crate::linalg::mat3_zero(),
            tan_half_fov_x: Rat { n: 7, d: 10 },
            tan_half_fov_y: Rat { n: 7, d: 10 },
            screen_x: 128,
            screen_y: 128,
            min_depth_difference: o,
            max_depth_difference: Rat { n: 1200, d: 1 },
        };
        let st = cam.update_extrinsics_centre(Point::new(z, z, o, o));
        proof {
            lemma_det3_id_nonzero();
            assert(st == ExtrinsicsStatus::Inverted);
        }
        cam.update_intrinsics();
        proof {
            assert(mat4_small(cam.camera_extrinsics@));
            lemma_calib_mul_fits(cam.calibration_matrix@, cam.camera_extrinsics@);
        }
        let ok = cam.update_superior_matrix();
        proof {
            assert(ok);
        }
        cam
    }

    /// Set position and orientation and rebuild the extrinsics and its
    /// inverse. On a singular orientation, or when the inversion arithmetic
    /// leaves the representable range, the inverse falls back to the
    /// identity and the condition is reported; rendering stays live with a
    /// stable, if incorrect, transform. The other derived matrices are left
    /// for `update_camera`.
    pub fn update_extrinsics(&mut self, new_centre: Point, new_orientation: Mat3) -> (st:
        ExtrinsicsStatus)
        requires
            vec4_wf(new_centre@),
            mat3_wf(new_orientation@),
        ensures
            final(self).centre == new_centre,
            final(self).orientation == new_orientation,
            final(self).camera_extrinsics@ == extrinsics_of(
                new_orientation@,
                Vec3Val { x: new_centre@.x, y: new_centre@.y, z: new_centre@.z },
            ),
            mat4_wf(final(self).extrinsics_inverse@),
            st == ExtrinsicsStatus::Inverted ==> inverse_valid(*final(self)) && !req(
                det3(new_orientation@),
                rzero(),
            ),
            st == ExtrinsicsStatus::Degenerate ==> final(self).extrinsics_inverse@ == m4_id()
                && req(det3(new_orientation@), rzero()),
            st == ExtrinsicsStatus::OutOfRange ==> final(self).extrinsics_inverse@ == m4_id(),
            small_mat3(new_orientation@) && small_vec3(
                Vec3Val { x: new_centre@.x, y: new_centre@.y, z: new_centre@.z },
            ) ==> st != ExtrinsicsStatus::OutOfRange,
            final(self).calibration_matrix == old(self).calibration_matrix,
            final(self).camera_matrix_superior == old(self).camera_matrix_superior,
            final(self).basis_change_matrix == old(self).basis_change_matrix,
            final(self).screen_x == old(self).screen_x,
            final(self).screen_y == old(self).screen_y,
            final(self).tan_half_fov_x == old(self).tan_half_fov_x,
            final(self).tan_half_fov_y == old(self).tan_half_fov_y,
            final(self).min_depth_difference == old(self).min_depth_difference,
            final(self).max_depth_difference == old(self).max_depth_difference,
            camera_wf(*old(self)) ==> camera_wf(*final(self)),
    {
        self.centre = new_centre;
        self.orientation = new_orientation;
        self.camera_extrinsics = build_extrinsics(&self.orientation, &self.centre);
        let txyz = Vec3 { x: new_centre.point.x, y: new_centre.point.y, z: new_centre.point.z };
        match invert_core(&self.orientation, &txyz) {
            Some(Some(inv)) => {
                self.extrinsics_inverse = inv;
                ExtrinsicsStatus::Inverted
            },
            Some(None) => {
                self.extrinsics_inverse = mat4_identity();
                ExtrinsicsStatus::Degenerate
            },
            None => {
                self.extrinsics_inverse = mat4_identity();
                ExtrinsicsStatus::OutOfRange
            },
        }
    }

    /// Move the camera, keeping its orientation.
    pub fn update_extrinsics_centre(&mut self, new_centre: Point) -> (st: ExtrinsicsStatus)
        requires
            vec4_wf(new_centre@),
            mat3_wf(old(self).orientation@),
        ensures
            final(self).centre == new_centre,
            final(self).orientation == old(self).orientation,
            final(self).camera_extrinsics@ == extrinsics_of(
                old(self).orientation@,
                Vec3Val { x: new_centre@.x, y: new_centre@.y, z: new_centre@.z },
            ),
            mat4_wf(final(self).extrinsics_inverse@),
            st == ExtrinsicsStatus::Inverted ==> inverse_valid(*final(self)) && !req(
                det3(old(self).orientation@),
                rzero(),
            ),
            st == ExtrinsicsStatus::Degenerate ==> final(self).extrinsics_inverse@ == m4_id()
                && req(det3(old(self).orientation@), rzero()),
            st == ExtrinsicsStatus::OutOfRange ==> final(self).extrinsics_inverse@ == m4_id(),
            small_mat3(old(self).orientation@) && small_vec3(
                Vec3Val { x: new_centre@.x, y: new_centre@.y, z: new_centre@.z },
            ) ==> st != ExtrinsicsStatus::OutOfRange,
            camera_wf(*old(self)) ==> camera_wf(*final(self)),
            final(self).calibration_matrix == old(self).calibration_matrix,
            final(self).camera_matrix_superior == old(self).camera_matrix_superior,
            final(self).basis_change_matrix == old(self).basis_change_matrix,
            final(self).screen_x == old(self).screen_x,
            final(self).screen_y == old(self).screen_y,
            final(self).tan_half_fov_x == old(self).tan_half_fov_x,
            final(self).tan_half_fov_y == old(self).tan_half_fov_y,
            final(self).min_depth_difference == old(self).min_depth_difference,
            final(self).max_depth_difference == old(self).max_depth_difference,
    {
        let ori = self.orientation;
        self.update_extrinsics(new_centre, ori)
    }

    /// Reorient the camera, keeping its position.
    pub fn update_extrinsics_orientation(&mut self, new_orientation: Mat3) -> (st:
        ExtrinsicsStatus)
        requires
            mat3_wf(new_orientation@),
            vec4_wf(old(self).centre@),
        ensures
            final(self).centre == old(self).centre,
            final(self).orientation == new_orientation,
            final(self).camera_extrinsics@ == extrinsics_of(
                new_orientation@,
                centre_xyz(*old(self)),
            ),
            mat4_wf(final(self).extrinsics_inverse@),
            st == ExtrinsicsStatus::Inverted ==> inverse_valid(*final(self)) && !req(
                det3(new_orientation@),
                rzero(),
            ),
            st == ExtrinsicsStatus::Degenerate ==> final(self).extrinsics_inverse@ == m4_id()
                && req(det3(new_orientation@), rzero()),
            st == ExtrinsicsStatus::OutOfRange ==> final(self).extrinsics_inverse@ == m4_id(),
            small_mat3(new_orientation@) && small_vec3(centre_xyz(*old(self))) ==> st
                != ExtrinsicsStatus::OutOfRange,
            camera_wf(*old(self)) ==> camera_wf(*final(self)),
            final(self).calibration_matrix == old(self).calibration_matrix,
            final(self).camera_matrix_superior == old(self).camera_matrix_superior,
            final(self).basis_change_matrix == old(self).basis_change_matrix,
            final(self).screen_x == old(self).screen_x,
            final(self).screen_y == old(self).screen_y,
            final(self).tan_half_fov_x == old(self).tan_half_fov_x,
            final(self).tan_half_fov_y == old(self).tan_half_fov_y,
            final(self).min_depth_difference == old(self).min_depth_difference,
            final(self).max_depth_difference == old(self).max_depth_difference,
    {
        let c = self.centre;
        self.update_extrinsics(c, new_orientation)
    }

    /// Rebuild the calibration matrix from the screen width and the stored
    /// half-angle tangent.
    pub fn update_intrinsics(&mut self)
        requires
            camera_wf(*old(self)),
        ensures
            mat4_wf(final(self).calibration_matrix@),
            mat4_eq(final(self).calibration_matrix@, calib_spec(*old(self))),
            calib_shape(final(self).calibration_matrix@, old(self).screen_x as int),
            *final(self) == (Camera {
                calibration_matrix: final(self).calibration_matrix,
                ..*old(self)
            }),
    {
        self.calibration_matrix = compute_calibration(self.screen_x, self.tan_half_fov_x);
    }

    /// Change the pixel resolution and refresh every derived matrix. When
    /// the refresh arithmetic leaves the representable range the camera is
    /// left exactly as it was.
    pub fn update_screen_size(&mut self, width: i32, height: i32) -> (st: CameraStatus)
        requires
            camera_wf(*old(self)),
            1 <= width <= 16384,
            1 <= height <= 16384,
        ensures
            st == CameraStatus::OutOfRange ==> *final(self) == *old(self),
            st != CameraStatus::OutOfRange ==> {
                &&& final(self).screen_x == width
                &&& final(self).screen_y == height
                &&& final(self).centre == old(self).centre
                &&& final(self).orientation == old(self).orientation
                &&& final(self).tan_half_fov_x == old(self).tan_half_fov_x
                &&& final(self).tan_half_fov_y == old(self).tan_half_fov_y
                &&& final(self).min_depth_difference == old(self).min_depth_difference
                &&& final(self).max_depth_difference == old(self).max_depth_difference
                &&& camera_wf(*final(self))
                &&& camera_synced(*final(self))
            },
            st == CameraStatus::Refreshed ==> inverse_valid(*final(self)),
            small_mat3(old(self).orientation@) && small_vec3(centre_xyz(*old(self))) ==> st
                != CameraStatus::OutOfRange,
    {
        let old_x = self.screen_x;
        let old_y = self.screen_y;
        self.screen_x = width;
        self.screen_y = height;
        let st = self.update_camera();
        if st == CameraStatus::OutOfRange {
            self.screen_x = old_x;
            self.screen_y = old_y;
            proof {
                assert(*self == *old(self));
            }
            return CameraStatus::OutOfRange;
        }
        st
    }

    /// Recompose the combined world-to-screen matrix from the calibration
    /// and extrinsics matrices.
    pub fn update_superior_matrix(&mut self) -> (ok: bool)
        requires
            camera_wf(*old(self)),
        ensures
            !ok ==> *final(self) == *old(self),
            ok ==> mat4_wf(final(self).camera_matrix_superior@) && mat4_eq(
                final(self).camera_matrix_superior@,
                m4_mul_m4(old(self).calibration_matrix@, old(self).camera_extrinsics@),
            ) && *final(self) == (Camera {
                camera_matrix_superior: final(self).camera_matrix_superior,
                ..*old(self)
            }),
            crate::linalg::m4m4_fits(
                old(self).calibration_matrix@,
                old(self).camera_extrinsics@,
            ) ==> ok,
    {
        match mat4_mul(&self.calibration_matrix, &self.camera_extrinsics) {
            Some(m) => {
                self.camera_matrix_superior = m;
                true
            },
            None => false,
        }
    }

    /// Rebuild the change-of-basis matrix whose columns are the camera's
    /// local axes in world coordinates. Applying the orientation to the
    /// three canonical axis vectors returns exactly its columns, so the
    /// assembled matrix is the orientation itself.
    pub fn update_basis_change_matrix(&mut self)
        ensures
            final(self).basis_change_matrix == old(self).orientation,
            *final(self) == (Camera {
                basis_change_matrix: old(self).orientation,
                ..*old(self)
            }),
    {
        self.basis_change_matrix = self.orientation;
    }

    /// The composite refresh: recompute extrinsics, inverse, basis change,
    /// calibration and the combined matrix, in dependency order. Either all
    /// of them are recomputed, or (when the arithmetic leaves the
    /// representable range) none is and the camera is unchanged. The field
    /// of view is not re-derived from the resolution here: that derivation
    /// is an arctangent, which has no exact rational value, so the stored
    /// half-angle tangent is kept as the caller set it and the surrounding
    /// application supplies a new one when it wants the angle to track a
    /// resize.
    pub fn update_camera(&mut self) -> (st: CameraStatus)
        requires
            camera_wf(*old(self)),
        ensures
            st == CameraStatus::OutOfRange ==> *final(self) == *old(self),
            st != CameraStatus::OutOfRange ==> {
                &&& final(self).centre == old(self).centre
                &&& final(self).orientation == old(self).orientation
                &&& final(self).screen_x == old(self).screen_x
                &&& final(self).screen_y == old(self).screen_y
                &&& final(self).tan_half_fov_x == old(self).tan_half_fov_x
                &&& final(self).tan_half_fov_y == old(self).tan_half_fov_y
                &&& final(self).min_depth_difference == old(self).min_depth_difference
                &&& final(self).max_depth_difference == old(self).max_depth_difference
                &&& camera_wf(*final(self))
                &&& camera_synced(*final(self))
            },
            st == CameraStatus::Refreshed ==> inverse_valid(*final(self)) && !req(
                det3(old(self).orientation@),
                rzero(),
            ),
            st == CameraStatus::Degenerate ==> final(self).extrinsics_inverse@ == m4_id() && req(
                det3(old(self).orientation@),
                rzero(),
            ),
            small_mat3(old(self).orientation@) && small_vec3(centre_xyz(*old(self))) ==> st
                != CameraStatus::OutOfRange,
    {
        let ext = build_extrinsics(&self.orientation, &self.centre);
        let txyz = Vec3 {
            x: self.centre.point.x,
            y: self.centre.point.y,
            z: self.centre.point.z,
        };
        let inv_res = invert_core(&self.orientation, &txyz);
        let (inv, degenerate): (Mat4, bool) = match inv_res {
            Some(Some(m)) => (m, false),
            Some(None) => (mat4_identity(), true),
            None => {
                return CameraStatus::OutOfRange;
            },
        };
        let calib = compute_calibration(self.screen_x, self.tan_half_fov_x);
        proof {
            assert(small_mat3(self.orientation@) && small_vec3(centre_xyz(*self))
                ==> crate::linalg::m4m4_fits(calib@, ext@)) by {
                if small_mat3(self.orientation@) && small_vec3(centre_xyz(*self)) {
                    assert(mat4_small(ext@));
                    lemma_calib_mul_fits(calib@, ext@);
                }
            };
        }
        let superior = match mat4_mul(&calib, &ext) {
            Some(m) => m,
            None => {
                return CameraStatus::OutOfRange;
            },
        };
        self.camera_extrinsics = ext;
        self.extrinsics_inverse = inv;
        self.basis_change_matrix = self.orientation;
        self.calibration_matrix = calib;
        self.camera_matrix_superior = superior;
        if degenerate {
            CameraStatus::Degenerate
        } else {
            CameraStatus::Refreshed
        }
    }

    /// A world point in camera-local coordinates: the inverse extrinsics
    /// applied to it, truncated to its spatial components.
    pub fn to_local_coords_vec(&self, point: Point) -> (r: Option<Vec3>)
        requires
            camera_wf(*self),
            vec4_wf(point@),
        ensures
            r matches Some(v) ==> {
                &&& rwf(v@.x) && rwf(v@.y) && rwf(v@.z)
                &&& req(v@.x, local_of(*self, point).x)
                &&& req(v@.y, local_of(*self, point).y)
                &&& req(v@.z, local_of(*self, point).z)
            },
            m4v4_fits(self.extrinsics_inverse@, point@) ==> r.is_some(),
    {
        match mat4_vec_mul(&self.extrinsics_inverse, &point.point) {
            Some(v) => Some(Vec3 { x: v.x, y: v.y, z: v.z }),
            None => None,
        }
    }
}

/// One pixel of the output buffer.
#[derive(Clone, Copy, Debug, PartialEq, Eq, Structural)]
pub struct Pixel {
    pub r: u8,
    pub g: u8,
    pub b: u8,
    pub a: u8,
}

/// The transparent background colour.
pub open spec fn background() -> Pixel {
    Pixel { r: 0, g: 0, b: 0, a: 0 }
}

/// The accent colour a marked point is stamped with.
pub open spec fn accent() -> Pixel {
    Pixel { r: 0x5e, g: 0x48, b: 0xe8, a: 0xff }
}

/// Whether any element of the list is a point object, the only variant the
/// rasterizer stamps.
pub open spec fn has_point_object(s: Seq<coordinate_object>) -> bool {
    exists|i: int| 0 <= i < s.len() && (#[trigger] s[i]) is Point_object
}

/// Every constituent point of every object transforms through the stored
/// inverse without leaving the representable range.
pub open spec fn vis_fits(c: Camera, s: Seq<coordinate_object>) -> bool {
    forall|i: int, j: int|
        0 <= i < s.len() && 0 <= j < s[i].points_spec().len() ==> m4v4_fits(
            c.extrinsics_inverse@,
            (#[trigger] s[i].points_spec()[j])@,
        )
}

/// Visibility of an object, as a predicate on the object alone.
pub open spec fn vis_pred(c: Camera) -> spec_fn(coordinate_object) -> bool {
    |o: coordinate_object| object_visible(c, o)
}

/// The visible subsequence of an object list, in order.
pub open spec fn vis_filter(c: Camera, s: Seq<coordinate_object>) -> Seq<coordinate_object> {
    s.filter(vis_pred(c))
}

/// The largest coordinate magnitude: the exact stand-in this renderer uses
/// for the camera-local distance (it brackets the Euclidean length within a
/// constant factor and needs no square root).
pub open spec fn norm_max(v: Vec3Val) -> Ratio {
    let ax = crate::rational::rabs(v.x);
    let ay = crate::rational::rabs(v.y);
    let az = crate::rational::rabs(v.z);
    let m = if rle(ax, ay) {
        ay
    } else {
        ax
    };
    if rle(m, az) {
        az
    } else {
        m
    }
}

/// The apparent radius of a stamped point disc.
pub open spec fn disc_radius(point_size: Ratio, dist: Ratio) -> Ratio {
    rdiv(point_size, rmul(rint(2), dist))
}

/// The camera-local distance is a magnitude: never negative.
pub proof fn lemma_norm_nonneg(v: Vec3Val)
    requires
        rwf(v.x) && rwf(v.y) && rwf(v.z),
    ensures
        rle(rzero(), norm_max(v)),
        1 <= norm_max(v).d,
        0 <= norm_max(v).n,
{
}

/// The disc radius is positive whenever the distance is, whatever the signs
/// of the coordinates it came from.
pub proof fn lemma_disc_radius_positive(point_size: Ratio, dist: Ratio)
    requires
        rwf(point_size),
        rwf(dist),
        0 < point_size.n,
        0 < dist.n,
    ensures
        0 < disc_radius(point_size, dist).n * disc_radius(point_size, dist).d,
{
    let r = disc_radius(point_size, dist);
    assert(0 < r.n * r.d) by (nonlinear_arith)
        requires
            r.n == point_size.n * (1 * dist.d),
            r.d == point_size.d * (2 * dist.n),
            0 < point_size.n,
            1 <= point_size.d,
            0 < dist.n,
            1 <= dist.d,
    ;
}

/// A visibility threshold separates depths exactly: any point short of it is
/// out, any point at or past it is in.
pub proof fn lemma_visibility_threshold(c: Camera, below: Point, above: Point)
    requires
        rlt(local_of(c, below).z, c.min_depth_difference@),
        rle(c.min_depth_difference@, local_of(c, above).z),
    ensures
        !point_visible(c, below),
        point_visible(c, above),
{
}

/// Round trip: camera-local coordinates, taken back through the extrinsics,
/// give the original point, for any camera whose inversion succeeded.
pub proof fn lemma_local_coords_round_trip(c: Camera, p: Point)
    requires
        inverse_valid(c),
        vec4_wf(p@),
    ensures
        vec4_eq(m4_mul_v4(c.camera_extrinsics@, local_of(c, p)), p@),
{
    assert(vec4_eq(m4_mul_v4(c.camera_extrinsics@, m4_mul_v4(c.extrinsics_inverse@, p@)), p@));
}

/// A row of the identity applied to a vector of nonzero denominators picks
/// the matching component.
proof fn lemma_id_row(x1: Ratio, x2: Ratio, x3: Ratio, x4: Ratio)
    requires
        x1.d != 0 && x2.d != 0 && x3.d != 0 && x4.d != 0,
    ensures
        req(sdot4(rone(), rzero(), rzero(), rzero(), x1, x2, x3, x4), x1),
        req(sdot4(rzero(), rone(), rzero(), rzero(), x1, x2, x3, x4), x2),
        req(sdot4(rzero(), rzero(), rone(), rzero(), x1, x2, x3, x4), x3),
        req(sdot4(rzero(), rzero(), rzero(), rone(), x1, x2, x3, x4), x4),
{
    let t1 = rmul(rone(), x1);
    let u2 = rmul(rzero(), x2);
    let u3 = rmul(rzero(), x3);
    let u4 = rmul(rzero(), x4);
    assert(t1.n == x1.n && t1.d == x1.d);
    assert(u2.n == 0 && u2.d == x2.d);
    assert(u3.n == 0 && u3.d == x3.d);
    assert(u4.n == 0 && u4.d == x4.d);
    let dall = ((x1.d * x2.d) * x3.d) * x4.d;
    // Row one.
    let s1 = sdot4(rone(), rzero(), rzero(), rzero(), x1, x2, x3, x4);
    let a12 = radd(t1, u2);
    assert(a12.n == x1.n * x2.d && a12.d == x1.d * x2.d) by (nonlinear_arith)
        requires
            a12.n == t1.n * u2.d + u2.n * t1.d,
            a12.d == t1.d * u2.d,
            t1.n == x1.n && t1.d == x1.d && u2.n == 0 && u2.d == x2.d,
    ;
    let a123 = radd(a12, u3);
    assert(a123.n == (x1.n * x2.d) * x3.d && a123.d == (x1.d * x2.d) * x3.d) by (nonlinear_arith)
        requires
            a123.n == a12.n * u3.d + u3.n * a12.d,
            a123.d == a12.d * u3.d,
            a12.n == x1.n * x2.d && a12.d == x1.d * x2.d && u3.n == 0 && u3.d == x3.d,
    ;
    assert(s1 == radd(a123, u4));
    assert(s1.n == ((x1.n * x2.d) * x3.d) * x4.d && s1.d == dall) by (nonlinear_arith)
        requires
            s1.n == a123.n * u4.d + u4.n * a123.d,
            s1.d == a123.d * u4.d,
            a123.n == (x1.n * x2.d) * x3.d && a123.d == (x1.d * x2.d) * x3.d,
            u4.n == 0 && u4.d == x4.d,
            dall == ((x1.d * x2.d) * x3.d) * x4.d,
    ;
    assert(s1.n * x1.d == x1.n * dall) by (nonlinear_arith)
        requires
            s1.n == ((x1.n * x2.d) * x3.d) * x4.d,
            dall == ((x1.d * x2.d) * x3.d) * x4.d,
    ;
    // Row two.
    let t2 = rmul(rone(), x2);
    let v1 = rmul(rzero(), x1);
    assert(t2.n == x2.n && t2.d == x2.d && v1.n == 0 && v1.d == x1.d);
    let s2 = sdot4(rzero(), rone(), rzero(), rzero(), x1, x2, x3, x4);
    let b12 = radd(v1, t2);
    assert(b12.n == x2.n * x1.d && b12.d == x1.d * x2.d) by (nonlinear_arith)
        requires
            b12.n == v1.n * t2.d + t2.n * v1.d,
            b12.d == v1.d * t2.d,
            v1.n == 0 && v1.d == x1.d && t2.n == x2.n && t2.d == x2.d,
    ;
    let b123 = radd(b12, u3);
    assert(b123.n == (x2.n * x1.d) * x3.d && b123.d == (x1.d * x2.d) * x3.d) by (nonlinear_arith)
        requires
            b123.n == b12.n * u3.d + u3.n * b12.d,
            b123.d == b12.d * u3.d,
            b12.n == x2.n * x1.d && b12.d == x1.d * x2.d && u3.n == 0 && u3.d == x3.d,
    ;
    assert(s2 == radd(b123, u4));
    assert(s2.n == ((x2.n * x1.d) * x3.d) * x4.d && s2.d == dall) by (nonlinear_arith)
        requires
            s2.n == b123.n * u4.d + u4.n * b123.d,
            s2.d == b123.d * u4.d,
            b123.n == (x2.n * x1.d) * x3.d && b123.d == (x1.d * x2.d) * x3.d,
            u4.n == 0 && u4.d == x4.d,
            dall == ((x1.d * x2.d) * x3.d) * x4.d,
    ;
    assert(s2.n * x2.d == x2.n * dall) by (nonlinear_arith)
        requires
            s2.n == ((x2.n * x1.d) * x3.d) * x4.d,
            dall == ((x1.d * x2.d) * x3.d) * x4.d,
    ;
    // Row three.
    let t3 = rmul(rone(), x3);
    assert(t3.n == x3.n && t3.d == x3.d);
    let s3 = sdot4(rzero(), rzero(), rone(), rzero(), x1, x2, x3, x4);
    let c12 = radd(v1, u2);
    assert(c12.n == 0 && c12.d == x1.d * x2.d) by (nonlinear_arith)
        requires
            c12.n == v1.n * u2.d + u2.n * v1.d,
            c12.d == v1.d * u2.d,
            v1.n == 0 && v1.d == x1.d && u2.n == 0 && u2.d == x2.d,
    ;
    let c123 = radd(c12, t3);
    assert(c123.n == x3.n * (x1.d * x2.d) && c123.d == (x1.d * x2.d) * x3.d) by (nonlinear_arith)
        requires
            c123.n == c12.n * t3.d + t3.n * c12.d,
            c123.d == c12.d * t3.d,
            c12.n == 0 && c12.d == x1.d * x2.d && t3.n == x3.n && t3.d == x3.d,
    ;
    assert(s3 == radd(c123, u4));
    assert(s3.n == (x3.n * (x1.d * x2.d)) * x4.d && s3.d == dall) by (nonlinear_arith)
        requires
            s3.n == c123.n * u4.d + u4.n * c123.d,
            s3.d == c123.d * u4.d,
            c123.n == x3.n * (x1.d * x2.d) && c123.d == (x1.d * x2.d) * x3.d,
            u4.n == 0 && u4.d == x4.d,
            dall == ((x1.d * x2.d) * x3.d) * x4.d,
    ;
    assert(s3.n * x3.d == x3.n * dall) by (nonlinear_arith)
        requires
            s3.n == (x3.n * (x1.d * x2.d)) * x4.d,
            dall == ((x1.d * x2.d) * x3.d) * x4.d,
    ;
    // Row four.
    let t4 = rmul(rone(), x4);
    assert(t4.n == x4.n && t4.d == x4.d);
    let s4 = sdot4(rzero(), rzero(), rzero(), rone(), x1, x2, x3, x4);
    let d123 = radd(c12, u3);
    assert(d123.n == 0 && d123.d == (x1.d * x2.d) * x3.d) by (nonlinear_arith)
        requires
            d123.n == c12.n * u3.d + u3.n * c12.d,
            d123.d == c12.d * u3.d,
            c12.n == 0 && c12.d == x1.d * x2.d && u3.n == 0 && u3.d == x3.d,
    ;
    assert(s4 == radd(d123, t4));
    assert(s4.n == x4.n * ((x1.d * x2.d) * x3.d) && s4.d == dall) by (nonlinear_arith)
        requires
            s4.n == d123.n * t4.d + t4.n * d123.d,
            s4.d == d123.d * t4.d,
            d123.n == 0 && d123.d == (x1.d * x2.d) * x3.d && t4.n == x4.n && t4.d == x4.d,
            dall == ((x1.d * x2.d) * x3.d) * x4.d,
    ;
    assert(s4.n * x4.d == x4.n * dall) by (nonlinear_arith)
        requires
            s4.n == x4.n * ((x1.d * x2.d) * x3.d),
            dall == ((x1.d * x2.d) * x3.d) * x4.d,
    ;
}

/// Denominator positivity for the rows of the identity applied to a vector
/// with positive denominators.
proof fn proof_den_pos_id_rows(x: Vec4Val)
    requires
        x.x.d >= 1 && x.y.d >= 1 && x.z.d >= 1 && x.w.d >= 1,
    ensures
        m4_mul_v4(m4_id(), x).x.d >= 1,
        m4_mul_v4(m4_id(), x).y.d >= 1,
        m4_mul_v4(m4_id(), x).z.d >= 1,
        m4_mul_v4(m4_id(), x).w.d >= 1,
{
    crate::linalg::lemma_sdot4_den_pos_pub(rone(), rzero(), rzero(), rzero(), x.x, x.y, x.z, x.w);
    crate::linalg::lemma_sdot4_den_pos_pub(rzero(), rone(), rzero(), rzero(), x.x, x.y, x.z, x.w);
    crate::linalg::lemma_sdot4_den_pos_pub(rzero(), rzero(), rone(), rzero(), x.x, x.y, x.z, x.w);
    crate::linalg::lemma_sdot4_den_pos_pub(rzero(), rzero(), rzero(), rone(), x.x, x.y, x.z, x.w);
}

/// An identity camera maps a world point to the same local coordinates,
/// exactly: at the origin with identity orientation, `(x, y, z, w)` stays
/// `(x, y, z, w)`.
pub proof fn lemma_identity_camera(c: Camera, p: Point)
    requires
        camera_wf(c),
        camera_synced(c),
        inverse_valid(c),
        c.orientation@ == crate::linalg::m3_id(),
        c.centre@.x == rzero() && c.centre@.y == rzero() && c.centre@.z == rzero(),
        vec4_wf(p@),
    ensures
        vec4_eq(local_of(c, p), p@),
{
    assert(c.camera_extrinsics@ == m4_id());
    let x = m4_mul_v4(c.extrinsics_inverse@, p@);
    assert(vec4_eq(m4_mul_v4(c.camera_extrinsics@, x), p@));
    crate::linalg::lemma_sdot4_den_pos_pub(
        c.extrinsics_inverse@.m11,
        c.extrinsics_inverse@.m12,
        c.extrinsics_inverse@.m13,
        c.extrinsics_inverse@.m14,
        p@.x,
        p@.y,
        p@.z,
        p@.w,
    );
    crate::linalg::lemma_sdot4_den_pos_pub(
        c.extrinsics_inverse@.m21,
        c.extrinsics_inverse@.m22,
        c.extrinsics_inverse@.m23,
        c.extrinsics_inverse@.m24,
        p@.x,
        p@.y,
        p@.z,
        p@.w,
    );
    crate::linalg::lemma_sdot4_den_pos_pub(
        c.extrinsics_inverse@.m31,
        c.extrinsics_inverse@.m32,
        c.extrinsics_inverse@.m33,
        c.extrinsics_inverse@.m34,
        p@.x,
        p@.y,
        p@.z,
        p@.w,
    );
    crate::linalg::lemma_sdot4_den_pos_pub(
        c.extrinsics_inverse@.m41,
        c.extrinsics_inverse@.m42,
        c.extrinsics_inverse@.m43,
        c.extrinsics_inverse@.m44,
        p@.x,
        p@.y,
        p@.z,
        p@.w,
    );
    proof_den_pos_id_rows(x);
    lemma_id_row(x.x, x.y, x.z, x.w);
    let mx = m4_mul_v4(m4_id(), x);
    crate::rational::lemma_req_sym(mx.x, x.x);
    crate::rational::lemma_req_trans(x.x, mx.x, p@.x);
    crate::rational::lemma_req_sym(mx.y, x.y);
    crate::rational::lemma_req_trans(x.y, mx.y, p@.y);
    crate::rational::lemma_req_sym(mx.z, x.z);
    crate::rational::lemma_req_trans(x.z, mx.z, p@.z);
    crate::rational::lemma_req_sym(mx.w, x.w);
    crate::rational::lemma_req_trans(x.w, mx.w, p@.w);
}

impl Camera {
    /// The objects of the list that are visible to this camera, in order.
    /// Reports nothing when a transform leaves the representable range.
    pub fn return_visible_objects<'a>(&self, objects: &'a Vec<coordinate_object>) -> (r: Option<
        Vec<&'a coordinate_object>,
    >)
        requires
            camera_wf(*self),
            forall|i: int| 0 <= i < objects@.len() ==> (#[trigger] objects@[i]).points_wf(),
        ensures
            r matches Some(v) ==> v@.map_values(|o: &coordinate_object| *o) == vis_filter(
                *self,
                objects@,
            ),
            objects@.len() == 0 ==> r.is_some(),
            vis_fits(*self, objects@) ==> r.is_some(),
            r matches Some(v) ==> forall|k: int|
                0 <= k < v@.len() ==> (#[trigger] v@[k]).points_wf(),
    {
        let mut visible: Vec<&'a coordinate_object> = Vec::new();
        let mut i: usize = 0;
        while i < objects.len()
            invariant
                i <= objects@.len(),
                camera_wf(*self),
                forall|k: int| 0 <= k < objects@.len() ==> (#[trigger] objects@[k]).points_wf(),
                forall|k: int| 0 <= k < visible@.len() ==> (#[trigger] visible@[k]).points_wf(),
                visible@.map_values(|o: &coordinate_object| *o) == vis_filter(
                    *self,
                    objects@.subrange(0, i as int),
                ),
            decreases objects@.len() - i,
        {
            let obj = &objects[i];
            let pts = obj.get_points();
            let mut j: usize = 0;
            let mut found: bool = false;
            while j < pts.len() && !found
                invariant
                    j <= pts@.len(),
                    i < objects@.len(),
                    camera_wf(*self),
                    *obj == objects@[i as int],
                    pts@ == obj.points_spec(),
                    forall|k: int|
                        0 <= k < obj.points_spec().len() ==> vec4_wf(
                            #[trigger] obj.points_spec()[k]@,
                        ),
                    !found ==> forall|k: int|
                        0 <= k < j ==> !point_visible(*self, #[trigger] pts@[k]),
                    found ==> object_visible(*self, *obj),
                decreases pts@.len() - j,
            {
                let p = pts[j];
                proof {
                    assert(pts@[j as int] == obj.points_spec()[j as int]);
                    assert(vec4_wf(obj.points_spec()[j as int]@));
                    crate::linalg::lemma_sdot4_den_pos_pub(
                        self.extrinsics_inverse@.m31,
                        self.extrinsics_inverse@.m32,
                        self.extrinsics_inverse@.m33,
                        self.extrinsics_inverse@.m34,
                        p@.x,
                        p@.y,
                        p@.z,
                        p@.w,
                    );
                }
                match self.to_local_coords_vec(p) {
                    Some(local) => {
                        let vis = rat_le(self.min_depth_difference, local.z);
                        proof {
                            crate::rational::lemma_rle_req(
                                self.min_depth_difference@,
                                local@.z,
                                self.min_depth_difference@,
                                local_of(*self, p).z,
                            );
                            if vis {
                                assert(point_visible(*self, pts@[j as int]));
                            } else {
                                assert(!point_visible(*self, pts@[j as int]));
                            }
                        }
                        if vis {
                            found = true;
                        }
                    },
                    None => {
                        proof {
                            if vis_fits(*self, objects@) {
                                assert(m4v4_fits(
                                    self.extrinsics_inverse@,
                                    objects@[i as int].points_spec()[j as int]@,
                                ));
                                assert(false);
                            }
                        }
                        return None;
                    },
                }
                j = j + 1;
            }
            proof {
                if !found {
                    assert(!object_visible(*self, *obj)) by {
                        if object_visible(*self, *obj) {
                            let k = choose|k: int|
                                0 <= k < obj.points_spec().len() && point_visible(
                                    *self,
                                    obj.points_spec()[k],
                                );
                            assert(!point_visible(*self, pts@[k]));
                        }
                    }
                }
                assert(objects@.subrange(0, i as int + 1) =~= objects@.subrange(0, i as int).push(
                    objects@[i as int],
                ));
                objects@.subrange(0, i as int).lemma_filter_push(objects@[i as int], vis_pred(*self));
            }
            if found {
                visible.push(obj);
                proof {
                    assert(visible@.map_values(|o: &coordinate_object| *o) =~= vis_filter(
                        *self,
                        objects@.subrange(0, i as int + 1),
                    ));
                }
            } else {
                proof {
                    assert(visible@.map_values(|o: &coordinate_object| *o) =~= vis_filter(
                        *self,
                        objects@.subrange(0, i as int + 1),
                    ));
                }
            }
            i = i + 1;
        }
        proof {
            assert(objects@.subrange(0, objects@.len() as int) =~= objects@);
        }
        Some(visible)
    }
}

/// Half, the movement scale divisor.
pub open spec fn half_val() -> Ratio {
    Ratio { n: 1, d: 2 }
}

/// The fixed movement step along a local axis.
pub open spec fn step_of(axis: Ratio) -> Ratio {
    rmul(axis, half_val())
}

/// Rotation about the local x axis, from a sine and cosine pair.
pub open spec fn rot_x_val(s: Ratio, c: Ratio) -> Mat3Val {
    Mat3Val {
        m11: rone(),
        m12: rzero(),
        m13: rzero(),
        m21: rzero(),
        m22: c,
        m23: crate::rational::rneg(s),
        m31: rzero(),
        m32: s,
        m33: c,
    }
}

/// Rotation about the local y axis, from a sine and cosine pair.
pub open spec fn rot_y_val(s: Ratio, c: Ratio) -> Mat3Val {
    Mat3Val {
        m11: c,
        m12: rzero(),
        m13: s,
        m21: rzero(),
        m22: rone(),
        m23: rzero(),
        m31: crate::rational::rneg(s),
        m32: rzero(),
        m33: c,
    }
}

/// Rotation about the local z axis, from a sine and cosine pair.
pub open spec fn rot_z_val(s: Ratio, c: Ratio) -> Mat3Val {
    Mat3Val {
        m11: c,
        m12: crate::rational::rneg(s),
        m13: rzero(),
        m21: s,
        m22: c,
        m23: rzero(),
        m31: rzero(),
        m32: rzero(),
        m33: rone(),
    }
}

/// An integer-valued rational within the given magnitude.
pub open spec fn unit_rat(a: Ratio, bound: int) -> bool {
    a.d == 1 && -bound <= a.n <= bound
}

/// Every orientation entry is integer-valued within the given magnitude.
pub open spec fn ori_units(c: Camera, bound: int) -> bool {
    &&& unit_rat(c.orientation@.m11, bound) && unit_rat(c.orientation@.m12, bound)
    &&& unit_rat(c.orientation@.m13, bound) && unit_rat(c.orientation@.m21, bound)
    &&& unit_rat(c.orientation@.m22, bound) && unit_rat(c.orientation@.m23, bound)
    &&& unit_rat(c.orientation@.m31, bound) && unit_rat(c.orientation@.m32, bound)
    &&& unit_rat(c.orientation@.m33, bound)
}

/// The spatial position is integer-valued within the given magnitude.
pub open spec fn centre_units(c: Camera, bound: int) -> bool {
    &&& unit_rat(c.centre@.x, bound) && unit_rat(c.centre@.y, bound)
    &&& unit_rat(c.centre@.z, bound)
}

/// State from which a half-step movement is guaranteed to stay in range.
pub open spec fn nudge_ready(c: Camera) -> bool {
    ori_units(c, 0x8000) && centre_units(c, 0x8000)
}

/// State from which an exact quarter-turn rotation is guaranteed to stay in
/// range.
pub open spec fn turn_ready(c: Camera) -> bool {
    ori_units(c, 0x8000) && centre_units(c, 0x20000)
}

/// A rotation in whole units: the shape of the exact quarter turns.
pub open spec fn quarter_turn_mat(m: Mat3Val) -> bool {
    &&& unit_rat(m.m11, 1) && unit_rat(m.m12, 1) && unit_rat(m.m13, 1)
    &&& unit_rat(m.m21, 1) && unit_rat(m.m22, 1) && unit_rat(m.m23, 1)
    &&& unit_rat(m.m31, 1) && unit_rat(m.m32, 1) && unit_rat(m.m33, 1)
}

/// State and offset from which a whole-unit translation is guaranteed to
/// stay in range.
pub open spec fn translate_ready(c: Camera, v: Vec4Val) -> bool {
    &&& ori_units(c, 0x8000)
    &&& unit_rat(c.centre@.x, 0x8000) && unit_rat(c.centre@.y, 0x8000)
    &&& unit_rat(c.centre@.z, 0x8000) && unit_rat(c.centre@.w, 0x8000)
    &&& unit_rat(v.x, 0x8000) && unit_rat(v.y, 0x8000) && unit_rat(v.z, 0x8000)
    &&& unit_rat(v.w, 0x8000)
}

/// A row of integer entries dotted with a whole-unit column fits.
proof fn lemma_fits_unit_dot3(a0: Ratio, a1: Ratio, a2: Ratio, b0: Ratio, b1: Ratio, b2: Ratio)
    requires
        unit_rat(a0, 0x8000) && unit_rat(a1, 0x8000) && unit_rat(a2, 0x8000),
        unit_rat(b0, 1) && unit_rat(b1, 1) && unit_rat(b2, 1),
    ensures
        crate::linalg::sdot3_fits(a0, a1, a2, b0, b1, b2),
{
    assert((((a0.d * b0.d) * (a1.d * b1.d)) * (a2.d * b2.d)) * (1 * 1) <= i64::MAX as int
        && -0x8000 <= (a0.n * b0.n) * ((a1.d * b1.d) * ((a2.d * b2.d) * (1 * 1))) <= 0x8000
        && -0x8000 <= (a1.n * b1.n) * ((a0.d * b0.d) * ((a2.d * b2.d) * (1 * 1))) <= 0x8000
        && -0x8000 <= (a2.n * b2.n) * ((a0.d * b0.d) * ((a1.d * b1.d) * (1 * 1))) <= 0x8000
        && (0 * 0) * ((a0.d * b0.d) * ((a1.d * b1.d) * (a2.d * b2.d))) == 0) by (nonlinear_arith)
        requires
            a0.d == 1 && a1.d == 1 && a2.d == 1 && b0.d == 1 && b1.d == 1 && b2.d == 1,
            -0x8000 <= a0.n <= 0x8000 && -0x8000 <= a1.n <= 0x8000 && -0x8000 <= a2.n <= 0x8000,
            -1 <= b0.n <= 1 && -1 <= b1.n <= 1 && -1 <= b2.n <= 1,
    ;
}

/// A reduced inner product of integer entries against a whole-unit column
/// is itself an integer entry within three times the bound.
proof fn lemma_unit_entry_rep(
    q: Ratio,
    a0: Ratio,
    a1: Ratio,
    a2: Ratio,
    b0: Ratio,
    b1: Ratio,
    b2: Ratio,
)
    requires
        crate::linalg::dot3_rep_bound(q, a0, a1, a2, b0, b1, b2),
        rwf(q),
        unit_rat(a0, 0x8000) && unit_rat(a1, 0x8000) && unit_rat(a2, 0x8000),
        unit_rat(b0, 1) && unit_rat(b1, 1) && unit_rat(b2, 1),
    ensures
        1 <= q.d <= 2,
        -0x18000 <= q.n <= 0x18000,
{
    assert((a0.d * b0.d) * ((a1.d * b1.d) * (a2.d * b2.d)) == 1 && ((a0.d * b0.d) * (a1.d * b1.d))
        * (a2.d * b2.d) == 1 && -0x8000 <= (a0.n * b0.n) * ((a1.d * b1.d) * (a2.d * b2.d))
        <= 0x8000 && -0x8000 <= (a1.n * b1.n) * ((a0.d * b0.d) * (a2.d * b2.d)) <= 0x8000
        && -0x8000 <= (a2.n * b2.n) * ((a0.d * b0.d) * (a1.d * b1.d)) <= 0x8000)
        by (nonlinear_arith)
        requires
            a0.d == 1 && a1.d == 1 && a2.d == 1 && b0.d == 1 && b1.d == 1 && b2.d == 1,
            -0x8000 <= a0.n <= 0x8000 && -0x8000 <= a1.n <= 0x8000 && -0x8000 <= a2.n <= 0x8000,
            -1 <= b0.n <= 1 && -1 <= b1.n <= 1 && -1 <= b2.n <= 1,
    ;
}

impl Translatable for Camera {
    open spec fn translate_pre(&self, v: Vec4) -> bool {
        camera_wf(*self) && vec4_wf(v@)
    }

    open spec fn translate_rel(&self, post: Self, v: Vec4, ok: bool) -> bool {
        &&& if ok {
            &&& camera_wf(post)
            &&& camera_synced(post)
            &&& vec4_eq(post.centre@, crate::linalg::v4_add(self.centre@, v@))
            &&& post.orientation == self.orientation
            &&& post.screen_x == self.screen_x && post.screen_y == self.screen_y
            &&& post.tan_half_fov_x == self.tan_half_fov_x
            &&& post.tan_half_fov_y == self.tan_half_fov_y
            &&& post.min_depth_difference == self.min_depth_difference
            &&& post.max_depth_difference == self.max_depth_difference
        } else {
            post == *self
        }
        &&& translate_ready(*self, v@) ==> ok
    }

    fn translate(&mut self, to_translate_by: Vec4) -> (ok: bool) {
        let p = Point::vector_to_point(to_translate_by);
        proof {
            assert(translate_ready(*old(self), to_translate_by@)
                ==> crate::linalg::v4_add_fits(self.centre@, p@)) by {
                if translate_ready(*old(self), to_translate_by@) {
                    lemma_nudge_add_fits(self.centre@.x, p@.x);
                    lemma_nudge_add_fits(self.centre@.y, p@.y);
                    lemma_nudge_add_fits(self.centre@.z, p@.z);
                    lemma_nudge_add_fits(self.centre@.w, p@.w);
                }
            };
        }
        let moved = match self.centre.add(&p) {
            Some(c) => c,
            None => {
                return false;
            },
        };
        proof {
            assert(translate_ready(*old(self), to_translate_by@) ==> small_vec3(
                Vec3Val { x: moved@.x, y: moved@.y, z: moved@.z },
            )) by {
                if translate_ready(*old(self), to_translate_by@) {
                    lemma_nudge_sum_small(moved@.x, old(self).centre@.x, to_translate_by@.x);
                    lemma_nudge_sum_small(moved@.y, old(self).centre@.y, to_translate_by@.y);
                    lemma_nudge_sum_small(moved@.z, old(self).centre@.z, to_translate_by@.z);
                }
            };
        }
        let old_centre = self.centre;
        self.centre = moved;
        let st = self.update_camera();
        if st == CameraStatus::OutOfRange {
            self.centre = old_centre;
            proof {
                assert(*self == *old(self));
            }
            return false;
        }
        true
    }
}

impl Rotatable for Camera {
    open spec fn rotate_pre(&self, m: Mat3) -> bool {
        camera_wf(*self) && mat3_wf(m@)
    }

    open spec fn rotate_rel(&self, post: Self, m: Mat3, ok: bool) -> bool {
        &&& if ok {
            &&& camera_wf(post)
            &&& camera_synced(post)
            &&& mat3_eq(post.orientation@, m3_mul_m3(self.orientation@, m@))
            &&& post.centre == self.centre
            &&& post.screen_x == self.screen_x && post.screen_y == self.screen_y
            &&& post.tan_half_fov_x == self.tan_half_fov_x
            &&& post.tan_half_fov_y == self.tan_half_fov_y
            &&& post.min_depth_difference == self.min_depth_difference
            &&& post.max_depth_difference == self.max_depth_difference
        } else {
            post == *self
        }
        &&& turn_ready(*self) && quarter_turn_mat(m@) ==> ok
    }

    fn rotate(&mut self, to_rotate_by: Mat3) -> (ok: bool) {
        let ghost ready = turn_ready(*old(self)) && quarter_turn_mat(to_rotate_by@);
        proof {
            assert(ready ==> crate::linalg::m3m3_fits(self.orientation@, to_rotate_by@)) by {
                if ready {
                    let a = self.orientation@;
                    let b = to_rotate_by@;
                    lemma_fits_unit_dot3(a.m11, a.m12, a.m13, b.m11, b.m21, b.m31);
                    lemma_fits_unit_dot3(a.m11, a.m12, a.m13, b.m12, b.m22, b.m32);
                    lemma_fits_unit_dot3(a.m11, a.m12, a.m13, b.m13, b.m23, b.m33);
                    lemma_fits_unit_dot3(a.m21, a.m22, a.m23, b.m11, b.m21, b.m31);
                    lemma_fits_unit_dot3(a.m21, a.m22, a.m23, b.m12, b.m22, b.m32);
                    lemma_fits_unit_dot3(a.m21, a.m22, a.m23, b.m13, b.m23, b.m33);
                    lemma_fits_unit_dot3(a.m31, a.m32, a.m33, b.m11, b.m21, b.m31);
                    lemma_fits_unit_dot3(a.m31, a.m32, a.m33, b.m12, b.m22, b.m32);
                    lemma_fits_unit_dot3(a.m31, a.m32, a.m33, b.m13, b.m23, b.m33);
                }
            };
        }
        let mm = match mat3_mul(&self.orientation, &to_rotate_by) {
            Some(m) => m,
            None => {
                return false;
            },
        };
        proof {
            assert(ready ==> small_mat3(mm@)) by {
                if ready {
                    let a = self.orientation@;
                    let b = to_rotate_by@;
                    lemma_unit_entry_rep(mm@.m11, a.m11, a.m12, a.m13, b.m11, b.m21, b.m31);
                    lemma_unit_entry_rep(mm@.m12, a.m11, a.m12, a.m13, b.m12, b.m22, b.m32);
                    lemma_unit_entry_rep(mm@.m13, a.m11, a.m12, a.m13, b.m13, b.m23, b.m33);
                    lemma_unit_entry_rep(mm@.m21, a.m21, a.m22, a.m23, b.m11, b.m21, b.m31);
                    lemma_unit_entry_rep(mm@.m22, a.m21, a.m22, a.m23, b.m12, b.m22, b.m32);
                    lemma_unit_entry_rep(mm@.m23, a.m21, a.m22, a.m23, b.m13, b.m23, b.m33);
                    lemma_unit_entry_rep(mm@.m31, a.m31, a.m32, a.m33, b.m11, b.m21, b.m31);
                    lemma_unit_entry_rep(mm@.m32, a.m31, a.m32, a.m33, b.m12, b.m22, b.m32);
                    lemma_unit_entry_rep(mm@.m33, a.m31, a.m32, a.m33, b.m13, b.m23, b.m33);
                }
            };
        }
        let old_ori = self.orientation;
        self.orientation = mm;
        let st = self.update_camera();
        if st == CameraStatus::OutOfRange {
            self.orientation = old_ori;
            proof {
                assert(*self == *old(self));
            }
            return false;
        }
        true
    }
}

/// A bounded integer coordinate plus a half-step offset fits.
proof fn lemma_nudge_add_fits(c: Ratio, v: Ratio)
    requires
        unit_rat(c, 0x8000),
        1 <= v.d <= 2 && -0x8000 <= v.n <= 0x8000,
    ensures
        crate::rational::radd_fits(c, v),
{
    assert(-(i64::MAX as int) <= c.n * v.d + v.n * c.d <= i64::MAX as int && c.d * v.d <= i64::MAX
        as int) by (nonlinear_arith)
        requires
            c.d == 1 && -0x8000 <= c.n <= 0x8000,
            1 <= v.d <= 2 && -0x8000 <= v.n <= 0x8000,
    ;
}

/// The reduced sum of a bounded coordinate and a half-step offset is small.
proof fn lemma_nudge_sum_small(q: Ratio, c: Ratio, v: Ratio)
    requires
        crate::rational::radd_rep_bound(q, c, v),
        unit_rat(c, 0x8000),
        1 <= v.d <= 2 && -0x8000 <= v.n <= 0x8000,
    ensures
        crate::rational::rwf(q) ==> crate::extrinsics::small_rat(q),
{
    assert(q.d <= 2 && -0x20000 <= q.n <= 0x20000) by (nonlinear_arith)
        requires
            q.d <= c.d * v.d,
            c.n * v.d + v.n * c.d >= 0 ==> 0 <= q.n <= c.n * v.d + v.n * c.d,
            c.n * v.d + v.n * c.d < 0 ==> c.n * v.d + v.n * c.d <= q.n <= 0,
            c.d == 1 && -0x8000 <= c.n <= 0x8000,
            1 <= v.d <= 2 && -0x8000 <= v.n <= 0x8000,
    ;
}

impl Camera {
    /// Displace the camera position by an exact offset and refresh.
    fn move_by(&mut self, vx: Rat, vy: Rat, vz: Rat) -> (st: CameraStatus)
        requires
            camera_wf(*old(self)),
            rwf(vx@) && rwf(vy@) && rwf(vz@),
        ensures
            st == CameraStatus::OutOfRange ==> *final(self) == *old(self),
            st != CameraStatus::OutOfRange ==> {
                &&& camera_wf(*final(self))
                &&& camera_synced(*final(self))
                &&& req(final(self).centre@.x, radd(old(self).centre@.x, vx@))
                &&& req(final(self).centre@.y, radd(old(self).centre@.y, vy@))
                &&& req(final(self).centre@.z, radd(old(self).centre@.z, vz@))
                &&& final(self).centre@.w == old(self).centre@.w
                &&& final(self).orientation == old(self).orientation
                &&& final(self).screen_x == old(self).screen_x
                &&& final(self).screen_y == old(self).screen_y
                &&& final(self).tan_half_fov_x == old(self).tan_half_fov_x
                &&& final(self).tan_half_fov_y == old(self).tan_half_fov_y
                &&& final(self).min_depth_difference == old(self).min_depth_difference
                &&& final(self).max_depth_difference == old(self).max_depth_difference
            },
            st == CameraStatus::Refreshed ==> inverse_valid(*final(self)),
            ({
                &&& small_mat3(old(self).orientation@)
                &&& centre_units(*old(self), 0x8000)
                &&& 1 <= vx@.d <= 2 && -0x8000 <= vx@.n <= 0x8000
                &&& 1 <= vy@.d <= 2 && -0x8000 <= vy@.n <= 0x8000
                &&& 1 <= vz@.d <= 2 && -0x8000 <= vz@.n <= 0x8000
            }) ==> st != CameraStatus::OutOfRange,
    {
        let ghost ready = small_mat3(old(self).orientation@) && centre_units(*old(self), 0x8000)
            && 1 <= vx@.d <= 2 && -0x8000 <= vx@.n <= 0x8000 && 1 <= vy@.d <= 2 && -0x8000 <= vy@.n
            <= 0x8000 && 1 <= vz@.d <= 2 && -0x8000 <= vz@.n <= 0x8000;
        proof {
            assert(ready ==> crate::rational::radd_fits(self.centre@.x, vx@)
                && crate::rational::radd_fits(self.centre@.y, vy@) && crate::rational::radd_fits(
                self.centre@.z,
                vz@,
            )) by {
                if ready {
                    lemma_nudge_add_fits(self.centre@.x, vx@);
                    lemma_nudge_add_fits(self.centre@.y, vy@);
                    lemma_nudge_add_fits(self.centre@.z, vz@);
                }
            };
        }
        let nx = match rat_add(self.centre.point.x, vx) {
            Some(v) => v,
            None => {
                return CameraStatus::OutOfRange;
            },
        };
        let ny = match rat_add(self.centre.point.y, vy) {
            Some(v) => v,
            None => {
                return CameraStatus::OutOfRange;
            },
        };
        let nz = match rat_add(self.centre.point.z, vz) {
            Some(v) => v,
            None => {
                return CameraStatus::OutOfRange;
            },
        };
        proof {
            assert(ready ==> small_vec3(
                Vec3Val { x: nx@, y: ny@, z: nz@ },
            )) by {
                if ready {
                    lemma_nudge_sum_small(nx@, old(self).centre@.x, vx@);
                    lemma_nudge_sum_small(ny@, old(self).centre@.y, vy@);
                    lemma_nudge_sum_small(nz@, old(self).centre@.z, vz@);
                }
            };
        }
        let old_centre = self.centre;
        self.centre = Point::new(nx, ny, nz, self.centre.point.w);
        let st = self.update_camera();
        if st == CameraStatus::OutOfRange {
            self.centre = old_centre;
            proof {
                assert(*self == *old(self));
            }
            return CameraStatus::OutOfRange;
        }
        st
    }

    /// Step forward: half a unit along the local z axis.
    pub fn move_forward(&mut self) -> (st: CameraStatus)
        requires
            camera_wf(*old(self)),
        ensures
            st == CameraStatus::OutOfRange ==> *final(self) == *old(self),
            st != CameraStatus::OutOfRange ==> {
                &&& camera_wf(*final(self)) && camera_synced(*final(self))
                &&& req(
                    final(self).centre@.x,
                    radd(old(self).centre@.x, step_of(old(self).orientation@.m13)),
                )
                &&& req(
                    final(self).centre@.y,
                    radd(old(self).centre@.y, step_of(old(self).orientation@.m23)),
                )
                &&& req(
                    final(self).centre@.z,
                    radd(old(self).centre@.z, step_of(old(self).orientation@.m33)),
                )
                &&& final(self).orientation == old(self).orientation
                &&& final(self).centre@.w == old(self).centre@.w
                &&& final(self).screen_x == old(self).screen_x
                &&& final(self).screen_y == old(self).screen_y
                &&& final(self).tan_half_fov_x == old(self).tan_half_fov_x
                &&& final(self).tan_half_fov_y == old(self).tan_half_fov_y
                &&& final(self).min_depth_difference == old(self).min_depth_difference
                &&& final(self).max_depth_difference == old(self).max_depth_difference
            },
            nudge_ready(*old(self)) ==> st != CameraStatus::OutOfRange,
    {
        let half = Rat { n: 1, d: 2 };
        let dx = match rat_mul(self.orientation.m13, half) {
            Some(v) => v,
            None => {
                return CameraStatus::OutOfRange;
            },
        };
        let dy = match rat_mul(self.orientation.m23, half) {
            Some(v) => v,
            None => {
                return CameraStatus::OutOfRange;
            },
        };
        let dz = match rat_mul(self.orientation.m33, half) {
            Some(v) => v,
            None => {
                return CameraStatus::OutOfRange;
            },
        };
        proof {
            assert(nudge_ready(*old(self)) ==> {
                &&& small_mat3(old(self).orientation@)
                &&& centre_units(*old(self), 0x8000)
                &&& 1 <= dx@.d <= 2 && -0x8000 <= dx@.n <= 0x8000
                &&& 1 <= dy@.d <= 2 && -0x8000 <= dy@.n <= 0x8000
                &&& 1 <= dz@.d <= 2 && -0x8000 <= dz@.n <= 0x8000
            });
        }
        let st = self.move_by(dx, dy, dz);
        proof {
            if st != CameraStatus::OutOfRange {
                lemma_move_step(old(self).centre@.x, dx@, old(self).orientation@.m13, final(self).centre@.x);
                lemma_move_step(old(self).centre@.y, dy@, old(self).orientation@.m23, final(self).centre@.y);
                lemma_move_step(old(self).centre@.z, dz@, old(self).orientation@.m33, final(self).centre@.z);
            }
        }
        st
    }

    /// Step backward: half a unit against the local z axis.
    pub fn move_back(&mut self) -> (st: CameraStatus)
        requires
            camera_wf(*old(self)),
        ensures
            st == CameraStatus::OutOfRange ==> *final(self) == *old(self),
            st != CameraStatus::OutOfRange ==> {
                &&& camera_wf(*final(self)) && camera_synced(*final(self))
                &&& req(
                    final(self).centre@.x,
                    radd(
                        old(self).centre@.x,
                        step_of(crate::rational::rneg(old(self).orientation@.m13)),
                    ),
                )
                &&& req(
                    final(self).centre@.y,
                    radd(
                        old(self).centre@.y,
                        step_of(crate::rational::rneg(old(self).orientation@.m23)),
                    ),
                )
                &&& req(
                    final(self).centre@.z,
                    radd(
                        old(self).centre@.z,
                        step_of(crate::rational::rneg(old(self).orientation@.m33)),
                    ),
                )
                &&& final(self).orientation == old(self).orientation
                &&& final(self).centre@.w == old(self).centre@.w
                &&& final(self).screen_x == old(self).screen_x
                &&& final(self).screen_y == old(self).screen_y
                &&& final(self).tan_half_fov_x == old(self).tan_half_fov_x
                &&& final(self).tan_half_fov_y == old(self).tan_half_fov_y
                &&& final(self).min_depth_difference == old(self).min_depth_difference
                &&& final(self).max_depth_difference == old(self).max_depth_difference
            },
            nudge_ready(*old(self)) ==> st != CameraStatus::OutOfRange,
    {
        let half = Rat { n: 1, d: 2 };
        let dx = match rat_mul(crate::rational::rat_neg(self.orientation.m13), half) {
            Some(v) => v,
            None => {
                return CameraStatus::OutOfRange;
            },
        };
        let dy = match rat_mul(crate::rational::rat_neg(self.orientation.m23), half) {
            Some(v) => v,
            None => {
                return CameraStatus::OutOfRange;
            },
        };
        let dz = match rat_mul(crate::rational::rat_neg(self.orientation.m33), half) {
            Some(v) => v,
            None => {
                return CameraStatus::OutOfRange;
            },
        };
        proof {
            assert(nudge_ready(*old(self)) ==> {
                &&& small_mat3(old(self).orientation@)
                &&& centre_units(*old(self), 0x8000)
                &&& 1 <= dx@.d <= 2 && -0x8000 <= dx@.n <= 0x8000
                &&& 1 <= dy@.d <= 2 && -0x8000 <= dy@.n <= 0x8000
                &&& 1 <= dz@.d <= 2 && -0x8000 <= dz@.n <= 0x8000
            });
        }
        let st = self.move_by(dx, dy, dz);
        proof {
            if st != CameraStatus::OutOfRange {
                lemma_move_step(old(self).centre@.x, dx@, crate::rational::rneg(old(self).orientation@.m13), final(self).centre@.x);
                lemma_move_step(old(self).centre@.y, dy@, crate::rational::rneg(old(self).orientation@.m23), final(self).centre@.y);
                lemma_move_step(old(self).centre@.z, dz@, crate::rational::rneg(old(self).orientation@.m33), final(self).centre@.z);
            }
        }
        st
    }

    /// Step down: half a unit along the local y axis.
    pub fn move_down(&mut self) -> (st: CameraStatus)
        requires
            camera_wf(*old(self)),
        ensures
            st == CameraStatus::OutOfRange ==> *final(self) == *old(self),
            st != CameraStatus::OutOfRange ==> {
                &&& camera_wf(*final(self)) && camera_synced(*final(self))
                &&& req(
                    final(self).centre@.x,
                    radd(old(self).centre@.x, step_of(old(self).orientation@.m12)),
                )
                &&& req(
                    final(self).centre@.y,
                    radd(old(self).centre@.y, step_of(old(self).orientation@.m22)),
                )
                &&& req(
                    final(self).centre@.z,
                    radd(old(self).centre@.z, step_of(old(self).orientation@.m32)),
                )
                &&& final(self).orientation == old(self).orientation
                &&& final(self).centre@.w == old(self).centre@.w
                &&& final(self).screen_x == old(self).screen_x
                &&& final(self).screen_y == old(self).screen_y
                &&& final(self).tan_half_fov_x == old(self).tan_half_fov_x
                &&& final(self).tan_half_fov_y == old(self).tan_half_fov_y
                &&& final(self).min_depth_difference == old(self).min_depth_difference
                &&& final(self).max_depth_difference == old(self).max_depth_difference
            },
            nudge_ready(*old(self)) ==> st != CameraStatus::OutOfRange,
    {
        let half = Rat { n: 1, d: 2 };
        let dx = match rat_mul(self.orientation.m12, half) {
            Some(v) => v,
            None => {
                return CameraStatus::OutOfRange;
            },
        };
        let dy = match rat_mul(self.orientation.m22, half) {
            Some(v) => v,
            None => {
                return CameraStatus::OutOfRange;
            },
        };
        let dz = match rat_mul(self.orientation.m32, half) {
            Some(v) => v,
            None => {
                return CameraStatus::OutOfRange;
            },
        };
        proof {
            assert(nudge_ready(*old(self)) ==> {
                &&& small_mat3(old(self).orientation@)
                &&& centre_units(*old(self), 0x8000)
                &&& 1 <= dx@.d <= 2 && -0x8000 <= dx@.n <= 0x8000
                &&& 1 <= dy@.d <= 2 && -0x8000 <= dy@.n <= 0x8000
                &&& 1 <= dz@.d <= 2 && -0x8000 <= dz@.n <= 0x8000
            });
        }
        let st = self.move_by(dx, dy, dz);
        proof {
            if st != CameraStatus::OutOfRange {
                lemma_move_step(old(self).centre@.x, dx@, old(self).orientation@.m12, final(self).centre@.x);
                lemma_move_step(old(self).centre@.y, dy@, old(self).orientation@.m22, final(self).centre@.y);
                lemma_move_step(old(self).centre@.z, dz@, old(self).orientation@.m32, final(self).centre@.z);
            }
        }
        st
    }

    /// Step up: half a unit against the local y axis.
    pub fn move_up(&mut self) -> (st: CameraStatus)
        requires
            camera_wf(*old(self)),
        ensures
            st == CameraStatus::OutOfRange ==> *final(self) == *old(self),
            st != CameraStatus::OutOfRange ==> {
                &&& camera_wf(*final(self)) && camera_synced(*final(self))
                &&& req(
                    final(self).centre@.x,
                    radd(
                        old(self).centre@.x,
                        step_of(crate::rational::rneg(old(self).orientation@.m12)),
                    ),
                )
                &&& req(
                    final(self).centre@.y,
                    radd(
                        old(self).centre@.y,
                        step_of(crate::rational::rneg(old(self).orientation@.m22)),
                    ),
                )
                &&& req(
                    final(self).centre@.z,
                    radd(
                        old(self).centre@.z,
                        step_of(crate::rational::rneg(old(self).orientation@.m32)),
                    ),
                )
                &&& final(self).orientation == old(self).orientation
                &&& final(self).centre@.w == old(self).centre@.w
                &&& final(self).screen_x == old(self).screen_x
                &&& final(self).screen_y == old(self).screen_y
                &&& final(self).tan_half_fov_x == old(self).tan_half_fov_x
                &&& final(self).tan_half_fov_y == old(self).tan_half_fov_y
                &&& final(self).min_depth_difference == old(self).min_depth_difference
                &&& final(self).max_depth_difference == old(self).max_depth_difference
            },
            nudge_ready(*old(self)) ==> st != CameraStatus::OutOfRange,
    {
        let half = Rat { n: 1, d: 2 };
        let dx = match rat_mul(crate::rational::rat_neg(self.orientation.m12), half) {
            Some(v) => v,
            None => {
                return CameraStatus::OutOfRange;
            },
        };
        let dy = match rat_mul(crate::rational::rat_neg(self.orientation.m22), half) {
            Some(v) => v,
            None => {
                return CameraStatus::OutOfRange;
            },
        };
        let dz = match rat_mul(crate::rational::rat_neg(self.orientation.m32), half) {
            Some(v) => v,
            None => {
                return CameraStatus::OutOfRange;
            },
        };
        proof {
            assert(nudge_ready(*old(self)) ==> {
                &&& small_mat3(old(self).orientation@)
                &&& centre_units(*old(self), 0x8000)
                &&& 1 <= dx@.d <= 2 && -0x8000 <= dx@.n <= 0x8000
                &&& 1 <= dy@.d <= 2 && -0x8000 <= dy@.n <= 0x8000
                &&& 1 <= dz@.d <= 2 && -0x8000 <= dz@.n <= 0x8000
            });
        }
        let st = self.move_by(dx, dy, dz);
        proof {
            if st != CameraStatus::OutOfRange {
                lemma_move_step(old(self).centre@.x, dx@, crate::rational::rneg(old(self).orientation@.m12), final(self).centre@.x);
                lemma_move_step(old(self).centre@.y, dy@, crate::rational::rneg(old(self).orientation@.m22), final(self).centre@.y);
                lemma_move_step(old(self).centre@.z, dz@, crate::rational::rneg(old(self).orientation@.m32), final(self).centre@.z);
            }
        }
        st
    }

    /// Step right: half a unit along the local x axis.
    pub fn move_right(&mut self) -> (st: CameraStatus)
        requires
            camera_wf(*old(self)),
        ensures
            st == CameraStatus::OutOfRange ==> *final(self) == *old(self),
            st != CameraStatus::OutOfRange ==> {
                &&& camera_wf(*final(self)) && camera_synced(*final(self))
                &&& req(
                    final(self).centre@.x,
                    radd(old(self).centre@.x, step_of(old(self).orientation@.m11)),
                )
                &&& req(
                    final(self).centre@.y,
                    radd(old(self).centre@.y, step_of(old(self).orientation@.m21)),
                )
                &&& req(
                    final(self).centre@.z,
                    radd(old(self).centre@.z, step_of(old(self).orientation@.m31)),
                )
                &&& final(self).orientation == old(self).orientation
                &&& final(self).centre@.w == old(self).centre@.w
                &&& final(self).screen_x == old(self).screen_x
                &&& final(self).screen_y == old(self).screen_y
                &&& final(self).tan_half_fov_x == old(self).tan_half_fov_x
                &&& final(self).tan_half_fov_y == old(self).tan_half_fov_y
                &&& final(self).min_depth_difference == old(self).min_depth_difference
                &&& final(self).max_depth_difference == old(self).max_depth_difference
            },
            nudge_ready(*old(self)) ==> st != CameraStatus::OutOfRange,
    {
        let half = Rat { n: 1, d: 2 };
        let dx = match rat_mul(self.orientation.m11, half) {
            Some(v) => v,
            None => {
                return CameraStatus::OutOfRange;
            },
        };
        let dy = match rat_mul(self.orientation.m21, half) {
            Some(v) => v,
            None => {
                return CameraStatus::OutOfRange;
            },
        };
        let dz = match rat_mul(self.orientation.m31, half) {
            Some(v) => v,
            None => {
                return CameraStatus::OutOfRange;
            },
        };
        proof {
            assert(nudge_ready(*old(self)) ==> {
                &&& small_mat3(old(self).orientation@)
                &&& centre_units(*old(self), 0x8000)
                &&& 1 <= dx@.d <= 2 && -0x8000 <= dx@.n <= 0x8000
                &&& 1 <= dy@.d <= 2 && -0x8000 <= dy@.n <= 0x8000
                &&& 1 <= dz@.d <= 2 && -0x8000 <= dz@.n <= 0x8000
            });
        }
        let st = self.move_by(dx, dy, dz);
        proof {
            if st != CameraStatus::OutOfRange {
                lemma_move_step(old(self).centre@.x, dx@, old(self).orientation@.m11, final(self).centre@.x);
                lemma_move_step(old(self).centre@.y, dy@, old(self).orientation@.m21, final(self).centre@.y);
                lemma_move_step(old(self).centre@.z, dz@, old(self).orientation@.m31, final(self).centre@.z);
            }
        }
        st
    }

    /// Step left: half a unit against the local x axis.
    pub fn move_left(&mut self) -> (st: CameraStatus)
        requires
            camera_wf(*old(self)),
        ensures
            st == CameraStatus::OutOfRange ==> *final(self) == *old(self),
            st != CameraStatus::OutOfRange ==> {
                &&& camera_wf(*final(self)) && camera_synced(*final(self))
                &&& req(
                    final(self).centre@.x,
                    radd(
                        old(self).centre@.x,
                        step_of(crate::rational::rneg(old(self).orientation@.m11)),
                    ),
                )
                &&& req(
                    final(self).centre@.y,
                    radd(
                        old(self).centre@.y,
                        step_of(crate::rational::rneg(old(self).orientation@.m21)),
                    ),
                )
                &&& req(
                    final(self).centre@.z,
                    radd(
                        old(self).centre@.z,
                        step_of(crate::rational::rneg(old(self).orientation@.m31)),
                    ),
                )
                &&& final(self).orientation == old(self).orientation
                &&& final(self).centre@.w == old(self).centre@.w
                &&& final(self).screen_x == old(self).screen_x
                &&& final(self).screen_y == old(self).screen_y
                &&& final(self).tan_half_fov_x == old(self).tan_half_fov_x
                &&& final(self).tan_half_fov_y == old(self).tan_half_fov_y
                &&& final(self).min_depth_difference == old(self).min_depth_difference
                &&& final(self).max_depth_difference == old(self).max_depth_difference
            },
            nudge_ready(*old(self)) ==> st != CameraStatus::OutOfRange,
    {
        let half = Rat { n: 1, d: 2 };
        let dx = match rat_mul(crate::rational::rat_neg(self.orientation.m11), half) {
            Some(v) => v,
            None => {
                return CameraStatus::OutOfRange;
            },
        };
        let dy = match rat_mul(crate::rational::rat_neg(self.orientation.m21), half) {
            Some(v) => v,
            None => {
                return CameraStatus::OutOfRange;
            },
        };
        let dz = match rat_mul(crate::rational::rat_neg(self.orientation.m31), half) {
            Some(v) => v,
            None => {
                return CameraStatus::OutOfRange;
            },
        };
        proof {
            assert(nudge_ready(*old(self)) ==> {
                &&& small_mat3(old(self).orientation@)
                &&& centre_units(*old(self), 0x8000)
                &&& 1 <= dx@.d <= 2 && -0x8000 <= dx@.n <= 0x8000
                &&& 1 <= dy@.d <= 2 && -0x8000 <= dy@.n <= 0x8000
                &&& 1 <= dz@.d <= 2 && -0x8000 <= dz@.n <= 0x8000
            });
        }
        let st = self.move_by(dx, dy, dz);
        proof {
            if st != CameraStatus::OutOfRange {
                lemma_move_step(old(self).centre@.x, dx@, crate::rational::rneg(old(self).orientation@.m11), final(self).centre@.x);
                lemma_move_step(old(self).centre@.y, dy@, crate::rational::rneg(old(self).orientation@.m21), final(self).centre@.y);
                lemma_move_step(old(self).centre@.z, dz@, crate::rational::rneg(old(self).orientation@.m31), final(self).centre@.z);
            }
        }
        st
    }

    /// Rotate about the local x axis; the caller supplies the sine and
    /// cosine of the angle.
    pub fn rotate_degrees_x(&mut self, sin: Rat, cos: Rat) -> (ok: bool)
        requires
            camera_wf(*old(self)),
            rwf(sin@) && rwf(cos@),
        ensures
            !ok ==> *final(self) == *old(self),
            ok ==> camera_wf(*final(self)) && camera_synced(*final(self)) && mat3_eq(
                final(self).orientation@,
                m3_mul_m3(old(self).orientation@, rot_x_val(sin@, cos@)),
            ) && final(self).centre == old(self).centre,
            ok ==> {
                &&& final(self).screen_x == old(self).screen_x
                &&& final(self).screen_y == old(self).screen_y
                &&& final(self).tan_half_fov_x == old(self).tan_half_fov_x
                &&& final(self).tan_half_fov_y == old(self).tan_half_fov_y
                &&& final(self).min_depth_difference == old(self).min_depth_difference
                &&& final(self).max_depth_difference == old(self).max_depth_difference
            },
            turn_ready(*old(self)) && unit_rat(sin@, 1) && unit_rat(cos@, 1) ==> ok,
    {
        let z = Rat::zero();
        let o = Rat::one();
        let m = Mat3 {
            m11: o,
            m12: z,
            m13: z,
            m21: z,
            m22: cos,
            m23: crate::rational::rat_neg(sin),
            m31: z,
            m32: sin,
            m33: cos,
        };
        self.rotate(m)
    }

    /// Rotate about the local y axis; the caller supplies the sine and
    /// cosine of the angle.
    pub fn rotate_degrees_y(&mut self, sin: Rat, cos: Rat) -> (ok: bool)
        requires
            camera_wf(*old(self)),
            rwf(sin@) && rwf(cos@),
        ensures
            !ok ==> *final(self) == *old(self),
            ok ==> camera_wf(*final(self)) && camera_synced(*final(self)) && mat3_eq(
                final(self).orientation@,
                m3_mul_m3(old(self).orientation@, rot_y_val(sin@, cos@)),
            ) && final(self).centre == old(self).centre,
            ok ==> {
                &&& final(self).screen_x == old(self).screen_x
                &&& final(self).screen_y == old(self).screen_y
                &&& final(self).tan_half_fov_x == old(self).tan_half_fov_x
                &&& final(self).tan_half_fov_y == old(self).tan_half_fov_y
                &&& final(self).min_depth_difference == old(self).min_depth_difference
                &&& final(self).max_depth_difference == old(self).max_depth_difference
            },
            turn_ready(*old(self)) && unit_rat(sin@, 1) && unit_rat(cos@, 1) ==> ok,
    {
        let z = Rat::zero();
        let o = Rat::one();
        let m = Mat3 {
            m11: cos,
            m12: z,
            m13: sin,
            m21: z,
            m22: o,
            m23: z,
            m31: crate::rational::rat_neg(sin),
            m32: z,
            m33: cos,
        };
        self.rotate(m)
    }

    /// Rotate about the local z axis; the caller supplies the sine and
    /// cosine of the angle.
    pub fn rotate_degrees_z(&mut self, sin: Rat, cos: Rat) -> (ok: bool)
        requires
            camera_wf(*old(self)),
            rwf(sin@) && rwf(cos@),
        ensures
            !ok ==> *final(self) == *old(self),
            ok ==> camera_wf(*final(self)) && camera_synced(*final(self)) && mat3_eq(
                final(self).orientation@,
                m3_mul_m3(old(self).orientation@, rot_z_val(sin@, cos@)),
            ) && final(self).centre == old(self).centre,
            ok ==> {
                &&& final(self).screen_x == old(self).screen_x
                &&& final(self).screen_y == old(self).screen_y
                &&& final(self).tan_half_fov_x == old(self).tan_half_fov_x
                &&& final(self).tan_half_fov_y == old(self).tan_half_fov_y
                &&& final(self).min_depth_difference == old(self).min_depth_difference
                &&& final(self).max_depth_difference == old(self).max_depth_difference
            },
            turn_ready(*old(self)) && unit_rat(sin@, 1) && unit_rat(cos@, 1) ==> ok,
    {
        let z = Rat::zero();
        let o = Rat::one();
        let m = Mat3 {
            m11: cos,
            m12: crate::rational::rat_neg(sin),
            m13: z,
            m21: sin,
            m22: cos,
            m23: z,
            m31: z,
            m32: z,
            m33: o,
        };
        self.rotate(m)
    }
}

/// Floor of a well-formed rational, as an integer.
fn rat_floor(a: Rat) -> (r: i64)
    requires
        rwf(a@),
    ensures
        r as int == a@.n / a@.d,
        -(i64::MAX as int) <= r as int <= i64::MAX as int,
{
    proof {
        vstd::arithmetic::div_mod::lemma_fundamental_div_mod(a@.n, a@.d);
        vstd::arithmetic::div_mod::lemma_mod_bound(a@.n, a@.d);
        let q = a@.n / a@.d;
        assert(-(i64::MAX as int) <= q <= i64::MAX as int) by (nonlinear_arith)
            requires
                a@.n == a@.d * q + (a@.n % a@.d),
                0 <= a@.n % a@.d < a@.d,
                1 <= a@.d <= i64::MAX as int,
                -(i64::MAX as int) <= a@.n <= i64::MAX as int,
        ;
    }
    match a.n.checked_div_euclid(a.d) {
        Some(v) => v,
        None => {
            proof {
                assert(false);
            }
            0
        },
    }
}

impl Camera {
    /// The camera-local position of a point, split into its components.
    pub fn point_to_screen_position(&self, point: Point) -> (r: Option<(Rat, Rat, Rat)>)
        requires
            camera_wf(*self),
            vec4_wf(point@),
        ensures
            r matches Some(t) ==> {
                &&& rwf(t.0@) && rwf(t.1@) && rwf(t.2@)
                &&& req(t.0@, local_of(*self, point).x)
                &&& req(t.1@, local_of(*self, point).y)
                &&& req(t.2@, local_of(*self, point).z)
            },
    {
        match self.to_local_coords_vec(point) {
            Some(v) => Some((v.x, v.y, v.z)),
            None => None,
        }
    }

    /// Rasterize the visible point objects into a row-major pixel buffer of
    /// `screen_x * screen_y` pixels. Every pixel is either the background or
    /// the accent colour; with nothing stampable the buffer is entirely
    /// background. Only point objects are stamped; lines and polyhedra pass
    /// the visibility test but are deliberately not rasterized. The apparent
    /// disc radius is `disc_radius` over `norm_max`: the distance from the
    /// camera is taken in the largest-coordinate norm rather than the
    /// Euclidean length, whose square root has no exact rational value; the
    /// substitute is exact, never negative, and within a constant factor of
    /// the Euclidean distance. Reports nothing when a projection leaves the
    /// representable range.
    pub fn get_screen_values(&self, objects: &Vec<coordinate_object>) -> (r: Option<Vec<Pixel>>)
        requires
            camera_wf(*self),
            forall|i: int| 0 <= i < objects@.len() ==> (#[trigger] objects@[i]).points_wf(),
        ensures
            r matches Some(buf) ==> {
                &&& buf@.len() == self.screen_x as int * self.screen_y as int
                &&& forall|k: int|
                    0 <= k < buf@.len() ==> (#[trigger] buf@[k] == background() || buf@[k]
                        == accent())
                &&& !has_point_object(vis_filter(*self, objects@)) ==> forall|k: int|
                    0 <= k < buf@.len() ==> #[trigger] buf@[k] == background()
                &&& objects@.len() == 0 ==> forall|k: int|
                    0 <= k < buf@.len() ==> #[trigger] buf@[k] == background()
            },
            objects@.len() == 0 ==> r.is_some(),
            vis_fits(*self, objects@) && !has_point_object(vis_filter(*self, objects@))
                ==> r.is_some(),
    {
        let sxu: usize = self.screen_x as usize;
        let syu: usize = self.screen_y as usize;
        proof {
            assert(sxu * syu == self.screen_x as int * self.screen_y as int && sxu * syu
                <= 0x10000000) by (nonlinear_arith)
                requires
                    1 <= sxu <= 16384,
                    1 <= syu <= 16384,
                    sxu == self.screen_x as int,
                    syu == self.screen_y as int,
            ;
        }
        let total: usize = sxu * syu;
        let mut buf: Vec<Pixel> = Vec::new();
        let mut k: usize = 0;
        while k < total
            invariant
                k <= total,
                buf@.len() == k,
                forall|i: int| 0 <= i < k ==> #[trigger] buf@[i] == background(),
            decreases total - k,
        {
            buf.push(Pixel { r: 0, g: 0, b: 0, a: 0 });
            k = k + 1;
        }
        let visible = match self.return_visible_objects(objects) {
            Some(v) => v,
            None => {
                return None;
            },
        };
        proof {
            assert(objects@.len() == 0 ==> visible@.len() == 0) by {
                if objects@.len() == 0 {
                    assert(objects@ =~= Seq::<coordinate_object>::empty());
                    assert(vis_filter(*self, objects@).len() == 0);
                    assert(visible@.map_values(|o: &coordinate_object| *o).len() == 0);
                }
            };
        }
        let point_size = Rat { n: 500, d: 1 };
        let two = Rat { n: 2, d: 1 };
        let half = Rat { n: 1, d: 2 };
        let mut oi: usize = 0;
        while oi < visible.len()
            invariant
                oi <= visible@.len(),
                camera_wf(*self),
                buf@.len() == total,
                total == sxu * syu,
                sxu == self.screen_x as int && syu == self.screen_y as int,
                1 <= sxu <= 16384 && 1 <= syu <= 16384,
                rwf(point_size@) && rwf(two@) && rwf(half@),
                point_size@ == (Ratio { n: 500, d: 1 }),
                two@ == (Ratio { n: 2, d: 1 }),
                forall|i: int|
                    0 <= i < buf@.len() ==> (#[trigger] buf@[i] == background() || buf@[i]
                        == accent()),
                visible@.len() == 0 ==> forall|i: int|
                    0 <= i < buf@.len() ==> #[trigger] buf@[i] == background(),
                objects@.len() == 0 ==> visible@.len() == 0,
                visible@.map_values(|o: &coordinate_object| *o) == vis_filter(*self, objects@),
                !has_point_object(vis_filter(*self, objects@)) ==> forall|i: int|
                    0 <= i < buf@.len() ==> #[trigger] buf@[i] == background(),
                forall|i: int|
                    0 <= i < visible@.len() ==> (#[trigger] visible@[i]).points_wf(),
            decreases visible@.len() - oi,
        {
            let obj = visible[oi];
            match obj {
                coordinate_object::Point_object(p) => {
                    proof {
                        assert(has_point_object(vis_filter(*self, objects@))) by {
                            let fs = vis_filter(*self, objects@);
                            assert(fs[oi as int] == *visible@[oi as int]);
                            assert(fs[oi as int] is Point_object);
                        }
                    }
                    // Project through calibration times extrinsics, exactly
                    // as stored.
                    let mm = match mat4_mul(&self.calibration_matrix, &self.camera_extrinsics) {
                        Some(m) => m,
                        None => {
                            return None;
                        },
                    };
                    let v4 = match mat4_vec_mul(&mm, &p.point) {
                        Some(v) => v,
                        None => {
                            return None;
                        },
                    };
                    // A point in the camera plane cannot be divided through;
                    // it is skipped.
                    if !rat_is_zero(v4.z) {
                        let new_x = match rat_div(v4.x, v4.z) {
                            Some(v) => v,
                            None => {
                                return None;
                            },
                        };
                        let new_y = match rat_div(v4.y, v4.z) {
                            Some(v) => v,
                            None => {
                                return None;
                            },
                        };
                        let local = match self.to_local_coords_vec(*p) {
                            Some(v) => v,
                            None => {
                                return None;
                            },
                        };
                        // Distance as a magnitude: the largest local
                        // coordinate.
                        let ax = rat_abs(local.x);
                        let ay = rat_abs(local.y);
                        let az = rat_abs(local.z);
                        let m1 = if rat_le(ax, ay) {
                            ay
                        } else {
                            ax
                        };
                        let dist = if rat_le(m1, az) {
                            az
                        } else {
                            m1
                        };
                        // A point exactly at the camera has no finite disc;
                        // it is skipped.
                        if !rat_is_zero(dist) {
                            let denom = match rat_mul(two, dist) {
                                Some(v) => v,
                                None => {
                                    return None;
                                },
                            };
                            proof {
                                assert(denom@.n != 0) by (nonlinear_arith)
                                    requires
                                        denom@.n * (two@.d * dist@.d) == (two@.n * dist@.n)
                                            * denom@.d,
                                        two@.n == 2 && two@.d == 1,
                                        dist@.n != 0,
                                        1 <= dist@.d,
                                        1 <= denom@.d,
                                ;
                            }
                            let vs = match rat_div(point_size, denom) {
                                Some(v) => v,
                                None => {
                                    return None;
                                },
                            };
                            let half_vs = match rat_mul(vs, half) {
                                Some(v) => v,
                                None => {
                                    return None;
                                },
                            };
                            let lo_x = match rat_sub(new_x, half_vs) {
                                Some(v) => v,
                                None => {
                                    return None;
                                },
                            };
                            let hi_x = match rat_add(new_x, half_vs) {
                                Some(v) => v,
                                None => {
                                    return None;
                                },
                            };
                            let lo_y = match rat_sub(new_y, half_vs) {
                                Some(v) => v,
                                None => {
                                    return None;
                                },
                            };
                            let hi_y = match rat_add(new_y, half_vs) {
                                Some(v) => v,
                                None => {
                                    return None;
                                },
                            };
                            // Clip the bounding box to the screen before any
                            // pixel is touched.
                            let x0 = clamp_to(rat_floor(lo_x), self.screen_x);
                            let x1 = clamp_hi(rat_floor(hi_x), self.screen_x);
                            let y0 = clamp_to(rat_floor(lo_y), self.screen_y);
                            let y1 = clamp_hi(rat_floor(hi_y), self.screen_y);
                            let mut yi: usize = y0;
                            while yi < y1
                                invariant
                                    y1 <= syu,
                                    x1 <= sxu,
                                    buf@.len() == total,
                                    total == sxu * syu,
                                    1 <= sxu <= 16384 && 1 <= syu <= 16384,
                                    forall|i: int|
                                        0 <= i < buf@.len() ==> (#[trigger] buf@[i] == background()
                                            || buf@[i] == accent()),
                                decreases y1 - yi,
                            {
                                let mut xi: usize = x0;
                                while xi < x1
                                    invariant
                                        yi < y1 <= syu,
                                        x1 <= sxu,
                                        buf@.len() == total,
                                        total == sxu * syu,
                                        1 <= sxu <= 16384 && 1 <= syu <= 16384,
                                        forall|i: int|
                                            0 <= i < buf@.len() ==> (#[trigger] buf@[i]
                                                == background() || buf@[i] == accent()),
                                    decreases x1 - xi,
                                {
                                    proof {
                                        assert(yi * sxu + xi < syu * sxu) by (nonlinear_arith)
                                            requires
                                                yi < syu,
                                                xi < sxu,
                                                1 <= sxu,
                                        ;
                                        assert(syu * sxu == sxu * syu) by (nonlinear_arith);
                                    }
                                    let idx: usize = yi * sxu + xi;
                                    buf.set(idx, Pixel { r: 0x5e, g: 0x48, b: 0xe8, a: 0xff });
                                    xi = xi + 1;
                                }
                                yi = yi + 1;
                            }
                        }
                    }
                },
                _ => {},
            }
            oi = oi + 1;
        }
        Some(buf)
    }
}

/// Clamp an integer pixel coordinate into `[0, limit]`.
fn clamp_to(v: i64, limit: i32) -> (r: usize)
    requires
        1 <= limit <= 16384,
    ensures
        r <= limit,
{
    if v < 0 {
        0
    } else if v > limit as i64 {
        limit as usize
    } else {
        v as usize
    }
}

/// Clamp an exclusive upper pixel bound into `[0, limit]`.
fn clamp_hi(v: i64, limit: i32) -> (r: usize)
    requires
        1 <= limit <= 16384,
    ensures
        r <= limit,
{
    if v < 0 {
        0
    } else if v >= limit as i64 {
        limit as usize
    } else {
        (v + 1) as usize
    }
}

/// Transfer the exact step value through the addition of the centre.
proof fn lemma_move_step(oldc: Ratio, dv: Ratio, axis: Ratio, newc: Ratio)
    requires
        req(newc, radd(oldc, dv)),
        req(dv, rmul(axis, half_val())),
        rwf(oldc),
        rwf(dv),
    ensures
        req(newc, radd(oldc, step_of(axis))),
{
    crate::rational::lemma_req_refl(oldc);
    crate::rational::lemma_req_add(oldc, dv, oldc, rmul(axis, half_val()));
    crate::rational::lemma_den_product(oldc.d, dv.d);
    crate::rational::lemma_req_trans(newc, radd(oldc, dv), radd(oldc, rmul(axis, half_val())));
}

} // verus!
