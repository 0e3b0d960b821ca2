//! Exercises of the camera pipeline and the world registry.

use perspective::camera::{
    coordinate_object, Camera, CameraStatus, ExtrinsicsStatus, Pixel,
};
use perspective::geometry::{
    sides_to_points_mut, Point, Rotatable, Surface, Translatable,
};
use perspective::linalg::{mat3_identity, mat3_zero, mat4_vec_mul, Mat3, Vec4};
use perspective::rational::{rat_value_eq, Rat};
use perspective::world::WorldSpace;

fn q(n: i64, d: i64) -> Rat {
    Rat::new(n, d)
}

fn pt(x: i64, y: i64, z: i64) -> Point {
    Point::new(q(x, 1), q(y, 1), q(z, 1), Rat::one())
}

fn origin() -> Point {
    Point::new(Rat::zero(), Rat::zero(), Rat::zero(), Rat::one())
}

/// Rotation of ninety degrees about the y axis, exactly.
fn rot_y_90() -> Mat3 {
    let z = Rat::zero();
    let o = Rat::one();
    Mat3 {
        m11: z,
        m12: z,
        m13: o,
        m21: z,
        m22: o,
        m23: z,
        m31: rat_neg(o),
        m32: z,
        m33: z,
    }
}

fn rat_neg(a: Rat) -> Rat {
    perspective::rational::rat_neg(a)
}

#[test]
fn identity_camera_maps_points_unchanged() {
    let mut cam = Camera::new();
    let st = cam.update_extrinsics(origin(), mat3_identity());
    assert!(st == ExtrinsicsStatus::Inverted);
    let local = cam.to_local_coords_vec(pt(3, 4, 5)).unwrap();
    assert!(rat_value_eq(local.x, q(3, 1)));
    assert!(rat_value_eq(local.y, q(4, 1)));
    assert!(rat_value_eq(local.z, q(5, 1)));
}

#[test]
fn local_coordinates_round_trip_through_extrinsics() {
    let mut cam = Camera::new();
    let st = cam.update_extrinsics(pt(1, 2, 3), rot_y_90());
    assert!(st == ExtrinsicsStatus::Inverted);
    let p = pt(-7, 11, 13);
    let back_in = mat4_vec_mul(&cam.extrinsics_inverse, &p.point_to_vector()).unwrap();
    let out = mat4_vec_mul(&cam.camera_extrinsics, &back_in).unwrap();
    assert!(rat_value_eq(out.x, p.point.x));
    assert!(rat_value_eq(out.y, p.point.y));
    assert!(rat_value_eq(out.z, p.point.z));
    assert!(rat_value_eq(out.w, p.point.w));
}

#[test]
fn zero_orientation_falls_back_to_identity_inverse() {
    let mut cam = Camera::new();
    let st = cam.update_extrinsics(pt(1, 2, 3), mat3_zero());
    assert!(st == ExtrinsicsStatus::Degenerate);
    let inv = &cam.extrinsics_inverse;
    assert!(rat_value_eq(inv.m11, Rat::one()));
    assert!(rat_value_eq(inv.m22, Rat::one()));
    assert!(rat_value_eq(inv.m33, Rat::one()));
    assert!(rat_value_eq(inv.m44, Rat::one()));
    assert!(rat_value_eq(inv.m12, Rat::zero()));
    assert!(rat_value_eq(inv.m14, Rat::zero()));
    // Rendering stays live: a frame can still be produced.
    assert!(cam.update_camera() == CameraStatus::Degenerate);
}

#[test]
fn visibility_respects_the_depth_threshold() {
    let mut cam = Camera::new();
    let st = cam.update_extrinsics(origin(), mat3_identity());
    assert!(st == ExtrinsicsStatus::Inverted);
    // The default minimum depth is one: just below is out, at and beyond
    // the threshold is in.
    let objects = vec![
        coordinate_object::Point_object(Point::new(
            Rat::zero(),
            Rat::zero(),
            q(1, 2),
            Rat::one(),
        )),
        coordinate_object::Point_object(pt(0, 0, 1)),
        coordinate_object::Point_object(pt(0, 0, 2)),
    ];
    let visible = cam.return_visible_objects(&objects).unwrap();
    assert_eq!(visible.len(), 2);
}

#[test]
fn line_with_one_near_endpoint_is_visible() {
    let mut cam = Camera::new();
    let st = cam.update_extrinsics(origin(), mat3_identity());
    assert!(st == ExtrinsicsStatus::Inverted);
    let line = perspective::geometry::Line::new(pt(0, 0, -500), pt(0, 0, 5));
    let objects = vec![coordinate_object::Line_object(line)];
    let visible = cam.return_visible_objects(&objects).unwrap();
    assert_eq!(visible.len(), 1);
}

#[test]
fn rotated_camera_sees_the_side_point() {
    // Camera at the origin, turned a quarter turn about y so that it faces
    // the negative x axis; the far point on that side lands in front of it.
    let z = Rat::zero();
    let o = Rat::one();
    let quarter = Mat3 {
        m11: z,
        m12: z,
        m13: rat_neg(o),
        m21: z,
        m22: o,
        m23: z,
        m31: o,
        m32: z,
        m33: z,
    };
    let mut cam = Camera::new();
    let st = cam.update_extrinsics(origin(), quarter);
    assert!(st == ExtrinsicsStatus::Inverted);
    let p = pt(-100, 40, 200);
    let local = cam.to_local_coords_vec(p).unwrap();
    assert!(perspective::rational::rat_le(cam.min_depth_difference, local.z));
    let objects = vec![coordinate_object::Point_object(p)];
    let visible = cam.return_visible_objects(&objects).unwrap();
    assert_eq!(visible.len(), 1);
    // The frame has the right size whether the disc lands on screen or is
    // clipped away entirely; no write can fall outside it.
    let buf = cam.get_screen_values(&objects).unwrap();
    assert_eq!(buf.len(), 128 * 128);
    for px in buf.iter() {
        let bg = Pixel { r: 0, g: 0, b: 0, a: 0 };
        let fg = Pixel { r: 0x5e, g: 0x48, b: 0xe8, a: 0xff };
        assert!(*px == bg || *px == fg);
    }
}

#[test]
fn frame_of_empty_world_is_all_background() {
    let mut world = WorldSpace::new();
    let mut cam = Camera::new();
    let st = cam.update_extrinsics(origin(), mat3_identity());
    assert!(st == ExtrinsicsStatus::Inverted);
    assert!(cam.update_camera() == CameraStatus::Refreshed);
    world.register_object(coordinate_object::Camera_object(cam));
    let buf = world.get_screen_values(&world.cameras[0]).unwrap();
    assert_eq!(buf.len(), 128 * 128);
    let bg = Pixel { r: 0, g: 0, b: 0, a: 0 };
    for px in buf.iter() {
        assert!(*px == bg);
    }
}

#[test]
fn centred_point_is_stamped_with_the_accent_colour() {
    let mut cam = Camera::new();
    let st = cam.update_extrinsics(origin(), mat3_identity());
    assert!(st == ExtrinsicsStatus::Inverted);
    assert!(cam.update_camera() == CameraStatus::Refreshed);
    let objects = vec![coordinate_object::Point_object(pt(0, 0, 5))];
    let buf = cam.get_screen_values(&objects).unwrap();
    assert_eq!(buf.len(), 128 * 128);
    // The point projects to the principal point (64, 64) with a disc of
    // radius twenty-five pixels around it.
    let fg = Pixel { r: 0x5e, g: 0x48, b: 0xe8, a: 0xff };
    let bg = Pixel { r: 0, g: 0, b: 0, a: 0 };
    assert!(buf[64 * 128 + 64] == fg);
    assert!(buf[0] == bg);
    assert!(buf[128 * 128 - 1] == bg);
}

#[test]
fn movement_steps_half_a_unit_along_the_axis() {
    let mut cam = Camera::new();
    let st = cam.update_extrinsics(origin(), mat3_identity());
    assert!(st == ExtrinsicsStatus::Inverted);
    assert!(cam.move_forward() != CameraStatus::OutOfRange);
    assert!(rat_value_eq(cam.centre.point.z, q(1, 2)));
    assert!(cam.move_back() != CameraStatus::OutOfRange);
    assert!(rat_value_eq(cam.centre.point.z, Rat::zero()));
    assert!(cam.move_right() != CameraStatus::OutOfRange);
    assert!(rat_value_eq(cam.centre.point.x, q(1, 2)));
    assert!(cam.move_left() != CameraStatus::OutOfRange);
    assert!(rat_value_eq(cam.centre.point.x, Rat::zero()));
    assert!(cam.move_down() != CameraStatus::OutOfRange);
    assert!(rat_value_eq(cam.centre.point.y, q(1, 2)));
    assert!(cam.move_up() != CameraStatus::OutOfRange);
    assert!(rat_value_eq(cam.centre.point.y, Rat::zero()));
}

#[test]
fn quarter_turns_compose_to_the_side_facing_orientation() {
    let mut cam = Camera::new();
    let st = cam.update_extrinsics(origin(), mat3_identity());
    assert!(st == ExtrinsicsStatus::Inverted);
    // A ninety-degree turn about y: sine one, cosine zero.
    assert!(cam.rotate_degrees_y(Rat::one(), Rat::zero()));
    let r = rot_y_90();
    assert!(rat_value_eq(cam.orientation.m13, r.m13));
    assert!(rat_value_eq(cam.orientation.m31, r.m31));
    assert!(rat_value_eq(cam.orientation.m22, r.m22));
    assert!(rat_value_eq(cam.orientation.m11, r.m11));
}

#[test]
fn construction_computes_the_derived_matrices() {
    // The constructor mirrors the hand-built original: camera at unit depth,
    // extrinsics [I | (0,0,1)], its inverse [I | (0,0,-1)], pinhole
    // calibration, their product as the combined matrix, and a zero
    // change-of-basis matrix until the first full refresh.
    let cam = Camera::new();
    assert!(rat_value_eq(cam.centre.point.z, Rat::one()));
    assert!(rat_value_eq(cam.camera_extrinsics.m11, Rat::one()));
    assert!(rat_value_eq(cam.camera_extrinsics.m34, Rat::one()));
    assert!(rat_value_eq(cam.camera_extrinsics.m14, Rat::zero()));
    assert!(rat_value_eq(cam.extrinsics_inverse.m34, rat_neg(Rat::one())));
    assert!(rat_value_eq(cam.extrinsics_inverse.m11, Rat::one()));
    assert!(rat_value_eq(cam.calibration_matrix.m11, q(640, 7)));
    assert!(rat_value_eq(cam.calibration_matrix.m13, q(64, 1)));
    assert!(rat_value_eq(cam.camera_matrix_superior.m11, q(640, 7)));
    assert!(rat_value_eq(cam.camera_matrix_superior.m14, q(64, 1)));
    assert!(rat_value_eq(cam.camera_matrix_superior.m34, Rat::one()));
    assert!(rat_value_eq(cam.basis_change_matrix.m11, Rat::zero()));
    assert!(rat_value_eq(cam.basis_change_matrix.m22, Rat::zero()));
}

#[test]
fn intrinsics_follow_the_pinhole_formula() {
    // Focal length is width over twice the half-angle tangent: with a
    // 128-pixel screen and a tangent of seven tenths, 640/7. The principal
    // point reuses the width for both axes.
    let mut cam = Camera::new();
    cam.update_intrinsics();
    assert!(rat_value_eq(cam.calibration_matrix.m11, q(640, 7)));
    assert!(rat_value_eq(cam.calibration_matrix.m22, q(640, 7)));
    assert!(rat_value_eq(cam.calibration_matrix.m13, q(64, 1)));
    assert!(rat_value_eq(cam.calibration_matrix.m23, q(64, 1)));
    assert!(rat_value_eq(cam.calibration_matrix.m33, Rat::one()));
}

#[test]
fn superior_matrix_composes_calibration_and_extrinsics() {
    let mut cam = Camera::new();
    let st = cam.update_extrinsics(origin(), mat3_identity());
    assert!(st == ExtrinsicsStatus::Inverted);
    assert!(cam.update_camera() == CameraStatus::Refreshed);
    // With identity extrinsics the combined matrix is the calibration.
    assert!(rat_value_eq(cam.camera_matrix_superior.m11, q(640, 7)));
    assert!(rat_value_eq(cam.camera_matrix_superior.m13, q(64, 1)));
    // The change-of-basis matrix holds the camera's local axes: for the
    // identity orientation, the identity.
    assert!(rat_value_eq(cam.basis_change_matrix.m11, Rat::one()));
    assert!(rat_value_eq(cam.basis_change_matrix.m12, Rat::zero()));
}

#[test]
fn camera_translate_and_rotate_traits() {
    let mut cam = Camera::new();
    let st = cam.update_extrinsics(origin(), mat3_identity());
    assert!(st == ExtrinsicsStatus::Inverted);
    let offset = Vec4 { x: q(1, 1), y: q(2, 1), z: q(3, 1), w: Rat::zero() };
    assert!(cam.translate(offset));
    assert!(rat_value_eq(cam.centre.point.x, q(1, 1)));
    assert!(rat_value_eq(cam.centre.point.y, q(2, 1)));
    assert!(rat_value_eq(cam.centre.point.z, q(3, 1)));
    assert!(cam.rotate(rot_y_90()));
    assert!(rat_value_eq(cam.orientation.m13, Rat::one()));
}

#[test]
fn perspective_object_translate_and_rotate() {
    let s = Surface::new(vec![pt(0, 0, 0), pt(2, 0, 0)]);
    let mut o = perspective::geometry::PerspectiveObject::new(vec![s]).unwrap();
    assert!(rat_value_eq(o.centre.point.x, q(1, 1)));
    let offset = Vec4 { x: q(5, 1), y: Rat::zero(), z: Rat::zero(), w: Rat::zero() };
    assert!(o.translate(offset));
    assert!(rat_value_eq(o.centre.point.x, q(6, 1)));
    assert!(o.rotate(mat3_identity()));
    assert!(rat_value_eq(o.orientation.m11, Rat::zero()));
}

#[test]
fn gathering_points_mutably_leaves_surfaces_unchanged() {
    let mut sides = vec![Surface::new(vec![pt(1, 0, 0)]), Surface::new(vec![pt(0, 1, 0)])];
    let pts = sides_to_points_mut(&mut sides);
    assert_eq!(pts.len(), 2);
    assert_eq!(sides.len(), 2);
    assert!(rat_value_eq(sides[0].key_points[0].point.x, q(1, 1)));
}

#[test]
fn screen_position_matches_local_coordinates() {
    let mut cam = Camera::new();
    let st = cam.update_extrinsics(origin(), mat3_identity());
    assert!(st == ExtrinsicsStatus::Inverted);
    let (x, y, z) = cam.point_to_screen_position(pt(3, 4, 5)).unwrap();
    assert!(rat_value_eq(x, q(3, 1)));
    assert!(rat_value_eq(y, q(4, 1)));
    assert!(rat_value_eq(z, q(5, 1)));
}

#[test]
fn registry_dispatches_by_variant() {
    let mut world = WorldSpace::new();
    world.setup();
    assert_eq!(world.cameras.len(), 1);
    assert_eq!(world.all_independents.len(), 2);
    world.register_object(coordinate_object::Point_object(pt(1, 1, 1)));
    assert_eq!(world.all_independents.len(), 3);
    assert_eq!(world.cameras.len(), 1);
}

#[test]
fn screen_resize_reaches_the_first_camera() {
    let mut world = WorldSpace::new();
    world.setup();
    let st = world.update_size(64, 32);
    assert!(st != CameraStatus::OutOfRange);
    assert_eq!(world.cameras[0].screen_x, 64);
    assert_eq!(world.cameras[0].screen_y, 32);
    let buf = world.get_screen_values(&world.cameras[0]).unwrap();
    assert_eq!(buf.len(), 64 * 32);
}
