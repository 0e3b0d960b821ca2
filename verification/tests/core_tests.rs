//! Exercises of the rational core and the geometric primitives.

use perspective::geometry::{
    calculate_centre, dedup_points, sides_to_points, Line, PerspectiveObject, Point,
    Point_Construct, PointOrder, Surface,
};
use perspective::linalg::{mat3_identity, mat3_zero, Vec4};
use perspective::rational::{
    rat_abs, rat_add, rat_div, rat_is_zero, rat_le, rat_lt, rat_mul, rat_neg, rat_sub,
    rat_value_eq, Rat,
};

fn q(n: i64, d: i64) -> Rat {
    Rat::new(n, d)
}

fn pt(x: i64, y: i64, z: i64) -> Point {
    Point::new(q(x, 1), q(y, 1), q(z, 1), Rat::one())
}

#[test]
fn rational_addition_is_exact() {
    let a = q(1, 3);
    let b = q(1, 6);
    let s = rat_add(a, b).unwrap();
    assert!(rat_value_eq(s, q(1, 2)));
}

#[test]
fn rational_multiplication_and_division() {
    let a = q(3, 4);
    let b = q(2, 9);
    let p = rat_mul(a, b).unwrap();
    assert!(rat_value_eq(p, q(1, 6)));
    let d = rat_div(p, b).unwrap();
    assert!(rat_value_eq(d, a));
}

#[test]
fn rational_subtraction_and_negation() {
    let a = q(5, 2);
    let b = q(7, 3);
    let d = rat_sub(a, b).unwrap();
    assert!(rat_value_eq(d, q(1, 6)));
    assert!(rat_value_eq(rat_neg(d), q(-1, 6)));
}

#[test]
fn rational_reduction_keeps_value() {
    assert!(rat_value_eq(q(2, 4), q(1, 2)));
    assert!(rat_value_eq(q(-10, 20), q(-1, 2)));
    assert!(!rat_value_eq(q(1, 2), q(1, 3)));
}

#[test]
fn rational_ordering() {
    assert!(rat_lt(q(1, 3), q(1, 2)));
    assert!(rat_le(q(1, 2), q(2, 4)));
    assert!(!rat_lt(q(1, 2), q(2, 4)));
    assert!(rat_is_zero(q(0, 5)));
}

#[test]
fn magnitude_is_taken_as_absolute_value() {
    // Two displacements of opposite sign have one magnitude, so a disc
    // radius built from it is the same for both.
    let d1 = rat_abs(q(-5, 1));
    let d2 = rat_abs(q(5, 1));
    assert!(rat_value_eq(d1, d2));
    assert!(rat_lt(Rat::zero(), d1));
}

#[test]
fn point_componentwise_addition() {
    let a = pt(1, 2, 3);
    let b = pt(10, 20, 30);
    let s = a.add(&b).unwrap();
    assert!(rat_value_eq(s.point.x, q(11, 1)));
    assert!(rat_value_eq(s.point.y, q(22, 1)));
    assert!(rat_value_eq(s.point.z, q(33, 1)));
}

#[test]
fn point_vector_round_trip() {
    let v = Vec4 { x: q(1, 2), y: q(3, 4), z: q(5, 6), w: Rat::one() };
    let p = Point::vector_to_point(v);
    let back = p.point_to_vector();
    assert!(rat_value_eq(back.x, q(1, 2)));
    assert!(rat_value_eq(back.w, Rat::one()));
    assert!(rat_value_eq(p.get_depth(), q(5, 6)));
}

#[test]
fn float_cmp_orders_by_distance() {
    let near = pt(1, 0, 0);
    let far = pt(0, 3, 0);
    match Point::float_cmp(&near, &far) {
        Some(PointOrder::Less) => {},
        _ => panic!("nearer point must compare less"),
    }
    let mirrored = pt(0, 0, -1);
    match Point::float_cmp(&near, &mirrored) {
        Some(PointOrder::Equal) => {},
        _ => panic!("equidistant points must compare equal"),
    }
}

#[test]
fn sort_point_vector_orders_by_distance() {
    let items = vec![pt(0, 0, 9), pt(1, 0, 0), pt(0, 5, 0)];
    let sorted = Point::sort_point_vector(items).unwrap();
    assert_eq!(sorted.len(), 3);
    assert!(rat_value_eq(sorted[0].point.x, q(1, 1)));
    assert!(rat_value_eq(sorted[1].point.y, q(5, 1)));
    assert!(rat_value_eq(sorted[2].point.z, q(9, 1)));
}

#[test]
fn line_keeps_its_endpoints() {
    let l = Line::new(pt(1, 2, 3), pt(4, 5, 6));
    assert!(rat_value_eq(l.get_start().point.x, q(1, 1)));
    assert!(rat_value_eq(l.get_end().point.z, q(6, 1)));
}

#[test]
fn sides_to_points_concatenates_in_order() {
    let s1 = Surface::new(vec![pt(0, 0, 0), pt(1, 0, 0)]);
    let s2 = Surface::new(vec![pt(0, 1, 0)]);
    let pts = sides_to_points(&vec![s1, s2]);
    assert_eq!(pts.len(), 3);
    assert!(rat_value_eq(pts[2].point.y, q(1, 1)));
}

#[test]
fn dedup_keeps_first_occurrences() {
    let pts = vec![pt(1, 0, 0), pt(0, 2, 0), pt(1, 0, 0), pt(0, 2, 0)];
    let dd = dedup_points(&pts);
    assert_eq!(dd.len(), 2);
    assert!(rat_value_eq(dd[0].point.x, q(1, 1)));
    assert!(rat_value_eq(dd[1].point.y, q(2, 1)));
}

#[test]
fn centroid_is_order_invariant_and_counts_duplicates_once() {
    // The same vertex set in two orders, one with a duplicated corner.
    let a = Surface::new(vec![pt(0, 0, 0), pt(2, 0, 0), pt(0, 2, 0), pt(2, 2, 0)]);
    let b = Surface::new(vec![
        pt(2, 2, 0),
        pt(0, 2, 0),
        pt(2, 0, 0),
        pt(0, 0, 0),
        pt(2, 2, 0),
    ]);
    let ca = calculate_centre(&vec![a]).unwrap();
    let cb = calculate_centre(&vec![b]).unwrap();
    assert!(rat_value_eq(ca.point.x, q(1, 1)));
    assert!(rat_value_eq(ca.point.y, q(1, 1)));
    assert!(rat_value_eq(ca.point.z, q(0, 1)));
    assert!(rat_value_eq(cb.point.x, ca.point.x));
    assert!(rat_value_eq(cb.point.y, ca.point.y));
    assert!(rat_value_eq(cb.point.z, ca.point.z));
}

#[test]
fn centre_of_no_vertices_is_rejected() {
    assert!(calculate_centre(&vec![]).is_none());
    assert!(PerspectiveObject::new(vec![]).is_none());
}

#[test]
fn perspective_object_collects_distinct_points() {
    let s1 = Surface::new(vec![pt(0, 0, 0), pt(2, 0, 0)]);
    let s2 = Surface::new(vec![pt(2, 0, 0), pt(0, 0, 4)]);
    let o = PerspectiveObject::new(vec![s1, s2]).unwrap();
    let pts = o.get_points();
    assert_eq!(pts.len(), 3);
    // The derived centre is the mean of the three distinct vertices.
    assert!(rat_value_eq(o.centre.point.x, q(2, 3)));
    assert!(rat_value_eq(o.centre.point.z, q(4, 3)));
    // The orientation starts at zero.
    let z = mat3_zero();
    assert!(rat_value_eq(o.orientation.m11, z.m11));
    let _ = mat3_identity();
}
