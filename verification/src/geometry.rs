//! Geometric primitives of the world space.
//!
//! Points are homogeneous four-component coordinates; lines are ordered pairs
//! of points; surfaces are vertex lists; perspective objects own surfaces, an
//! orientation and a derived centre. The centre is the mean of the distinct
//! vertices, where distinctness is exact equality of the stored
//! representation, so it does not depend on the order in which vertices are
//! listed.

use crate::linalg::{v4_add, v4_add_fits, vec4_eq, vec4_wf, Mat3, Vec3, Vec3Val, Vec4, Vec4Val};
use crate::rational::{
    lemma_req_add, lemma_req_trans, radd, rat_add, rat_div, rdiv, req, rint, rle, rlt, rmul, rone,
    rwf, rzero, Rat, Ratio,
};
use vstd::prelude::*;
use vstd::seq_lib::lemma_fold_left_permutation;

verus! {

/// A homogeneous point in world space.
#[derive(Clone, Copy, Debug, PartialEq, Eq, Structural)]
pub struct Point {
    pub point: Vec4,
}

impl View for Point {
    type V = Vec4Val;

    open spec fn view(&self) -> Vec4Val {
        self.point@
    }
}

/// The squared Euclidean distance of a point from the origin, over its
/// spatial components. Ordering by this value orders by distance, since
/// squaring is monotone on magnitudes.
pub open spec fn sq_mag(v: Vec4Val) -> Ratio {
    radd(radd(rmul(v.x, v.x), rmul(v.y, v.y)), rmul(v.z, v.z))
}

/// Ordering of two points by distance from the origin.
pub enum PointOrder {
    Less,
    Equal,
    Greater,
}

impl Point {
    /// Wrap a four-component vector as a point.
    pub fn vector_to_point(vector: Vec4) -> (r: Point)
        ensures
            r@ == vector@,
    {
        Point { point: vector }
    }

    /// The underlying four-component vector.
    pub fn point_to_vector(&self) -> (r: Vec4)
        ensures
            r@ == self@,
    {
        self.point
    }

    /// A point from its four components.
    pub fn new(x: Rat, y: Rat, z: Rat, w: Rat) -> (r: Self)
        ensures
            r@ == (Vec4Val { x: x@, y: y@, z: z@, w: w@ }),
    {
        Point { point: Vec4 { x, y, z, w } }
    }

    /// The camera-facing depth component.
    pub fn get_depth(&self) -> (r: Rat)
        ensures
            r@ == self@.z,
    {
        self.point.z
    }

    /// The spatial components, dropping the homogeneous one.
    pub fn point_ignore_w(&self) -> (r: Vec3)
        ensures
            r@ == (Vec3Val { x: self@.x, y: self@.y, z: self@.z }),
    {
        Vec3 { x: self.point.x, y: self.point.y, z: self.point.z }
    }

    /// Componentwise translation.
    pub fn add(&self, other: &Point) -> (r: Option<Point>)
        requires
            vec4_wf(self@),
            vec4_wf(other@),
        ensures
            r matches Some(p) ==> vec4_wf(p@) && vec4_eq(p@, v4_add(self@, other@)),
            r matches Some(p) ==> crate::rational::radd_rep_bound(p@.x, self@.x, other@.x)
                && crate::rational::radd_rep_bound(p@.y, self@.y, other@.y)
                && crate::rational::radd_rep_bound(p@.z, self@.z, other@.z)
                && crate::rational::radd_rep_bound(p@.w, self@.w, other@.w),
            v4_add_fits(self@, other@) ==> r.is_some(),
    {
        match crate::linalg::vec4_add(&self.point, &other.point) {
            Some(v) => Some(Point { point: v }),
            None => None,
        }
    }

    /// Compare two points by distance from the origin; exact, but partial in
    /// the sense that it reports nothing when the squared magnitudes leave
    /// the representable range.
    pub fn float_cmp(one: &Self, other: &Self) -> (r: Option<PointOrder>)
        requires
            vec4_wf(one@),
            vec4_wf(other@),
        ensures
            r matches Some(o) ==> {
                &&& (o is Less) == rlt(sq_mag(one@), sq_mag(other@))
                &&& (o is Greater) == rlt(sq_mag(other@), sq_mag(one@))
                &&& (o is Equal) == (req(sq_mag(one@), sq_mag(other@)))
            },
            crate::linalg::sdot3_fits(one@.x, one@.y, one@.z, one@.x, one@.y, one@.z)
                && crate::linalg::sdot3_fits(
                other@.x,
                other@.y,
                other@.z,
                other@.x,
                other@.y,
                other@.z,
            ) ==> r.is_some(),
    {
        let m1 = match crate::linalg::dot3(
            one.point.x,
            one.point.y,
            one.point.z,
            one.point.x,
            one.point.y,
            one.point.z,
        ) {
            Some(v) => v,
            None => {
                return None;
            },
        };
        let m2 = match crate::linalg::dot3(
            other.point.x,
            other.point.y,
            other.point.z,
            other.point.x,
            other.point.y,
            other.point.z,
        ) {
            Some(v) => v,
            None => {
                return None;
            },
        };
        proof {
            lemma_sq_mag_den_pos(one@);
            lemma_sq_mag_den_pos(other@);
            crate::rational::lemma_rle_req(m1@, m2@, sq_mag(one@), sq_mag(other@));
            crate::rational::lemma_rle_req(m2@, m1@, sq_mag(other@), sq_mag(one@));
        }
        if crate::rational::rat_lt(m1, m2) {
            Some(PointOrder::Less)
        } else if crate::rational::rat_lt(m2, m1) {
            Some(PointOrder::Greater)
        } else {
            proof {
                assert(req(sq_mag(one@), sq_mag(other@))) by {
                    assert(!rlt(sq_mag(one@), sq_mag(other@)) && !rlt(
                        sq_mag(other@),
                        sq_mag(one@),
                    ));
                }
            }
            Some(PointOrder::Equal)
        }
    }

    /// Sort a list of points by distance from the origin; stable, since each
    /// point is inserted after every earlier point of no greater magnitude.
    /// Reports nothing when a squared magnitude leaves the representable
    /// range.
    pub fn sort_point_vector(items: Vec<Point>) -> (r: Option<Vec<Point>>)
        requires
            forall|i: int| 0 <= i < items@.len() ==> vec4_wf(#[trigger] items@[i]@),
        ensures
            r matches Some(s) ==> {
                &&& s@.to_multiset() == items@.to_multiset()
                &&& forall|i: int, j: int|
                    0 <= i <= j < s@.len() ==> rle(
                        sq_mag(#[trigger] s@[i]@),
                        sq_mag(#[trigger] s@[j]@),
                    )
            },
            (forall|i: int|
                0 <= i < items@.len() ==> #[trigger] crate::linalg::sdot3_fits(
                    items@[i]@.x,
                    items@[i]@.y,
                    items@[i]@.z,
                    items@[i]@.x,
                    items@[i]@.y,
                    items@[i]@.z,
                )) ==> r.is_some(),
    {
        broadcast use vstd::seq_lib::group_to_multiset_ensures;

        let n = items.len();
        let mut out: Vec<Point> = Vec::new();
        let mut keys: Vec<Rat> = Vec::new();
        let mut idx: usize = 0;
        // Insertion sort on precomputed squared-magnitude keys.
        while idx < n
            invariant
                idx <= n,
                n == items@.len(),
                out@.len() == idx,
                keys@.len() == idx,
                forall|i: int| 0 <= i < items@.len() ==> vec4_wf(#[trigger] items@[i]@),
                out@.to_multiset() == items@.subrange(0, idx as int).to_multiset(),
                forall|i: int| 0 <= i < idx ==> rwf(#[trigger] keys@[i]@),
                forall|i: int| 0 <= i < idx ==> req(#[trigger] keys@[i]@, sq_mag(out@[i]@)),
                forall|i: int| 0 <= i < idx ==> vec4_wf(#[trigger] out@[i]@),
                forall|i: int, j: int|
                    0 <= i <= j < idx ==> rle(#[trigger] keys@[i]@, #[trigger] keys@[j]@),
            decreases n - idx,
        {
            let p = items[idx];
            proof {
                assert(vec4_wf(items@[idx as int]@));
            }
            let k = match crate::linalg::dot3(
                p.point.x,
                p.point.y,
                p.point.z,
                p.point.x,
                p.point.y,
                p.point.z,
            ) {
                Some(v) => v,
                None => {
                    proof {
                        assert(crate::linalg::sdot3_fits(
                            items@[idx as int]@.x,
                            items@[idx as int]@.y,
                            items@[idx as int]@.z,
                            items@[idx as int]@.x,
                            items@[idx as int]@.y,
                            items@[idx as int]@.z,
                        ) ==> false);
                    }
                    return None;
                },
            };
            // Find the insertion position.
            let mut pos: usize = 0;
            while pos < idx && crate::rational::rat_le(keys[pos], k)
                invariant
                    pos <= idx,
                    idx == keys@.len(),
                    rwf(k@),
                    forall|i: int| 0 <= i < idx ==> rwf(#[trigger] keys@[i]@),
                    forall|i: int| 0 <= i < pos ==> rle(#[trigger] keys@[i]@, k@),
                decreases idx - pos,
            {
                pos = pos + 1;
            }
            let ghost old_keys = keys@;
            let ghost old_out = out@;
            out.insert(pos, p);
            keys.insert(pos, k);
            proof {
                assert(items@.subrange(0, idx as int + 1) =~= items@.subrange(0, idx as int).push(
                    p,
                ));
                assert(out@ =~= old_out.insert(pos as int, p));
                vstd::seq_lib::to_multiset_insert(old_out, pos as int, p);
                vstd::seq_lib::to_multiset_build(items@.subrange(0, idx as int), p);
                assert forall|i: int| 0 <= i < keys@.len() implies rwf(#[trigger] keys@[i]@)
                    && vec4_wf(#[trigger] out@[i]@) && req(keys@[i]@, sq_mag(out@[i]@)) by {
                    if i < pos {
                        assert(keys@[i] == old_keys[i] && out@[i] == old_out[i]);
                    } else if i == pos {
                        assert(keys@[i] == k && out@[i] == p);
                    } else {
                        assert(keys@[i] == old_keys[i - 1] && out@[i] == old_out[i - 1]);
                    }
                }
                // Sortedness of the extended key sequence.
                assert forall|i: int, j: int| 0 <= i <= j < keys@.len() implies rle(
                    #[trigger] keys@[i]@,
                    #[trigger] keys@[j]@,
                ) by {
                    let kv = keys@;
                    if i < pos && j < pos {
                        assert(kv[i] == old_keys[i] && kv[j] == old_keys[j]);
                    } else if i < pos && j == pos {
                        assert(kv[i] == old_keys[i] && kv[j] == k);
                    } else if i < pos && j > pos {
                        assert(kv[i] == old_keys[i] && kv[j] == old_keys[j - 1]);
                    } else if i == pos && j == pos {
                    } else if i == pos && j > pos {
                        assert(kv[i] == k && kv[j] == old_keys[j - 1]);
                        assert(!rle(old_keys[pos as int]@, k@));
                        assert(rle(k@, old_keys[pos as int]@));
                        crate::rational::lemma_rle_trans(
                            k@,
                            old_keys[pos as int]@,
                            old_keys[j - 1]@,
                        );
                    } else {
                        assert(kv[i] == old_keys[i - 1] && kv[j] == old_keys[j - 1]);
                    }
                }
            }
            idx = idx + 1;
        }
        proof {
            assert(items@.subrange(0, n as int) =~= items@);
            assert forall|i: int, j: int| 0 <= i <= j < out@.len() implies rle(
                sq_mag(#[trigger] out@[i]@),
                sq_mag(#[trigger] out@[j]@),
            ) by {
                lemma_sq_mag_den_pos(out@[i]@);
                lemma_sq_mag_den_pos(out@[j]@);
                crate::rational::lemma_rle_req(
                    keys@[i]@,
                    keys@[j]@,
                    sq_mag(out@[i]@),
                    sq_mag(out@[j]@),
                );
            }
        }
        Some(out)
    }
}

/// A straight segment between two points.
#[derive(Clone, Copy, Debug)]
pub struct Line {
    pub point_a: Point,
    pub point_b: Point,
}

impl Line {
    pub fn new(point_one: Point, point_two: Point) -> (r: Self)
        ensures
            r.point_a == point_one,
            r.point_b == point_two,
    {
        Line { point_a: point_one, point_b: point_two }
    }

    pub fn get_start(&self) -> (r: Point)
        ensures
            r == self.point_a,
    {
        self.point_a
    }

    pub fn get_end(&self) -> (r: Point)
        ensures
            r == self.point_b,
    {
        self.point_b
    }
}

/// A face given by its vertices; used only as a source of points.
#[derive(Clone, Debug)]
pub struct Surface {
    pub key_points: Vec<Point>,
}

impl Surface {
    pub fn new(key_points: Vec<Point>) -> (r: Self)
        ensures
            r.key_points@ == key_points@,
    {
        Surface { key_points }
    }
}

/// All vertices of a list of surfaces, in order.
pub open spec fn surface_points(s: Seq<Surface>) -> Seq<Point>
    decreases s.len(),
{
    if s.len() == 0 {
        Seq::empty()
    } else {
        surface_points(s.drop_last()) + s.last().key_points@
    }
}

/// Every vertex of every surface is well-formed.
pub open spec fn surfaces_wf(s: Seq<Surface>) -> bool {
    forall|i: int, j: int|
        0 <= i < s.len() && 0 <= j < s[i].key_points@.len() ==> vec4_wf(
            #[trigger] s[i].key_points@[j]@,
        )
}

/// Gather the vertices of all surfaces, in order.
pub fn sides_to_points(surfaces: &Vec<Surface>) -> (r: Vec<Point>)
    ensures
        r@ == surface_points(surfaces@),
{
    let mut out: Vec<Point> = Vec::new();
    let mut i: usize = 0;
    while i < surfaces.len()
        invariant
            i <= surfaces@.len(),
            out@ == surface_points(surfaces@.subrange(0, i as int)),
        decreases surfaces@.len() - i,
    {
        let s = &surfaces[i];
        let mut j: usize = 0;
        while j < s.key_points.len()
            invariant
                j <= s.key_points@.len(),
                s == surfaces@[i as int],
                i < surfaces@.len(),
                out@ == surface_points(surfaces@.subrange(0, i as int)) + s.key_points@.subrange(
                    0,
                    j as int,
                ),
            decreases s.key_points@.len() - j,
        {
            out.push(s.key_points[j]);
            proof {
                assert(s.key_points@.subrange(0, j as int + 1) =~= s.key_points@.subrange(
                    0,
                    j as int,
                ).push(s.key_points@[j as int]));
                assert(out@ =~= surface_points(surfaces@.subrange(0, i as int))
                    + s.key_points@.subrange(0, j as int + 1));
            }
            j = j + 1;
        }
        proof {
            let pre = surfaces@.subrange(0, i as int + 1);
            assert(pre.drop_last() =~= surfaces@.subrange(0, i as int));
            assert(s.key_points@.subrange(0, j as int) =~= s.key_points@);
            assert(out@ =~= surface_points(pre));
        }
        i = i + 1;
    }
    proof {
        assert(surfaces@.subrange(0, surfaces@.len() as int) =~= surfaces@);
    }
    out
}

/// As `sides_to_points`, for callers that hold the surfaces mutably.
pub fn sides_to_points_mut(surfaces: &mut Vec<Surface>) -> (r: Vec<Point>)
    ensures
        *final(surfaces) == *old(surfaces),
        r@ == surface_points(old(surfaces)@),
{
    sides_to_points(surfaces)
}

/// The input with duplicates removed: each point keeps its first occurrence,
/// where sameness is exact equality of the stored representation.
pub open spec fn dedup_spec(s: Seq<Point>) -> Seq<Point>
    decreases s.len(),
{
    if s.len() == 0 {
        Seq::empty()
    } else {
        let d = dedup_spec(s.drop_last());
        if s.drop_last().contains(s.last()) {
            d
        } else {
            d.push(s.last())
        }
    }
}

/// The deduplicated sequence has no duplicates and the same members.
pub proof fn lemma_dedup_props(s: Seq<Point>)
    ensures
        dedup_spec(s).no_duplicates(),
        forall|p: Point| dedup_spec(s).contains(p) <==> s.contains(p),
        dedup_spec(s).len() <= s.len(),
    decreases s.len(),
{
    if s.len() == 0 {
    } else {
        let pre = s.drop_last();
        lemma_dedup_props(pre);
        let d = dedup_spec(pre);
        assert(forall|p: Point| pre.contains(p) || p == s.last() <==> s.contains(p)) by {
            assert forall|p: Point| s.contains(p) implies pre.contains(p) || p == s.last() by {
                let i = choose|i: int| 0 <= i < s.len() && s[i] == p;
                if i < s.len() - 1 {
                    assert(pre[i] == p);
                }
            }
            assert forall|p: Point| pre.contains(p) || p == s.last() implies s.contains(p) by {
                if pre.contains(p) {
                    let i = choose|i: int| 0 <= i < pre.len() && pre[i] == p;
                    assert(s[i] == p);
                } else {
                    assert(s[s.len() - 1] == p);
                }
            }
        }
        if pre.contains(s.last()) {
        } else {
            assert(dedup_spec(s) == d.push(s.last()));
            assert forall|i: int| 0 <= i < d.len() implies #[trigger] d[i] != s.last() by {
                assert(d.contains(d[i]));
            }
            assert(dedup_spec(s).no_duplicates());
            assert forall|p: Point| #[trigger] dedup_spec(s).contains(p) <==> s.contains(p) by {
                let dd = dedup_spec(s);
                if dd.contains(p) {
                    let i = choose|i: int| 0 <= i < dd.len() && dd[i] == p;
                    if i < d.len() {
                        assert(d[i] == p);
                        assert(d.contains(p));
                    } else {
                        assert(p == s.last());
                        assert(s[s.len() - 1] == p);
                    }
                }
                if s.contains(p) {
                    if pre.contains(p) {
                        assert(d.contains(p));
                        let i = choose|i: int| 0 <= i < d.len() && d[i] == p;
                        assert(dd[i] == p);
                    } else {
                        assert(p == s.last());
                        assert(dd[dd.len() - 1] == p);
                    }
                }
            }
        }
    }
}

/// Check whether a list holds a point, by exact representation equality.
fn contains_point(v: &Vec<Point>, p: Point) -> (r: bool)
    ensures
        r == v@.contains(p),
{
    let mut i: usize = 0;
    while i < v.len()
        invariant
            i <= v@.len(),
            forall|k: int| 0 <= k < i ==> v@[k] != p,
        decreases v@.len() - i,
    {
        if v[i] == p {
            return true;
        }
        i = i + 1;
    }
    proof {
        assert(!v@.contains(p));
    }
    false
}

/// Remove duplicate points, keeping first occurrences.
pub fn dedup_points(points: &Vec<Point>) -> (r: Vec<Point>)
    ensures
        r@ == dedup_spec(points@),
{
    let mut out: Vec<Point> = Vec::new();
    let mut i: usize = 0;
    while i < points.len()
        invariant
            i <= points@.len(),
            out@ == dedup_spec(points@.subrange(0, i as int)),
            forall|p: Point| out@.contains(p) <==> points@.subrange(0, i as int).contains(p),
        decreases points@.len() - i,
    {
        let p = points[i];
        let ghost pre = points@.subrange(0, i as int);
        proof {
            lemma_dedup_props(pre);
            assert(points@.subrange(0, i as int + 1).drop_last() =~= pre);
            assert(points@.subrange(0, i as int + 1).last() == p);
        }
        if !contains_point(&out, p) {
            out.push(p);
            proof {
                assert(out@ == dedup_spec(pre).push(p));
                assert forall|q: Point| out@.contains(q) implies points@.subrange(
                    0,
                    i as int + 1,
                ).contains(q) by {
                    let s = points@.subrange(0, i as int + 1);
                    if q == p {
                        assert(s[s.len() - 1] == p);
                    } else {
                        assert(dedup_spec(pre).contains(q));
                        let k = choose|k: int| 0 <= k < pre.len() && pre[k] == q;
                        assert(s[k] == q);
                    }
                }
                assert forall|q: Point| points@.subrange(0, i as int + 1).contains(q) implies out@
                    .contains(q) by {
                    let s = points@.subrange(0, i as int + 1);
                    let k = choose|k: int| 0 <= k < s.len() && s[k] == q;
                    if k < s.len() - 1 {
                        assert(pre[k] == q);
                        assert(dedup_spec(pre).contains(q));
                        let m = choose|m: int| 0 <= m < dedup_spec(pre).len() && dedup_spec(pre)[m]
                            == q;
                        assert(out@[m] == q);
                    } else {
                        assert(out@[out@.len() - 1] == p);
                    }
                }
            }
        } else {
            proof {
                let s = points@.subrange(0, i as int + 1);
                assert(pre.contains(p));
                assert(out@ == dedup_spec(s));
                assert forall|q: Point| out@.contains(q) <==> s.contains(q) by {
                    if s.contains(q) {
                        let k = choose|k: int| 0 <= k < s.len() && s[k] == q;
                        if k < s.len() - 1 {
                            assert(pre[k] == q);
                        } else {
                            assert(q == p && pre.contains(p));
                        }
                    }
                    if out@.contains(q) {
                        let k = choose|k: int| 0 <= k < pre.len() && pre[k] == q;
                        assert(s[k] == q);
                    }
                }
            }
        }
        i = i + 1;
    }
    proof {
        assert(points@.subrange(0, points@.len() as int) =~= points@);
    }
    out
}

/// One step of the centroid sum.
pub open spec fn pt_acc(acc: Vec3Val, p: Point) -> Vec3Val {
    Vec3Val { x: radd(acc.x, p@.x), y: radd(acc.y, p@.y), z: radd(acc.z, p@.z) }
}

/// The fold function of the centroid sum, as a single term.
pub open spec fn pt_fold_fn() -> spec_fn(Vec3Val, Point) -> Vec3Val {
    |acc: Vec3Val, p: Point| pt_acc(acc, p)
}

/// Sum of the spatial components of a point sequence.
pub open spec fn sum_points(s: Seq<Point>) -> Vec3Val {
    s.fold_left(Vec3Val { x: rzero(), y: rzero(), z: rzero() }, pt_fold_fn())
}

/// The derived centre of a vertex list: the mean of its distinct points,
/// with a homogeneous component of one.
pub open spec fn centre_of(s: Seq<Point>) -> Vec4Val {
    let d = dedup_spec(s);
    let sm = sum_points(d);
    Vec4Val {
        x: rdiv(sm.x, rint(d.len() as int)),
        y: rdiv(sm.y, rint(d.len() as int)),
        z: rdiv(sm.z, rint(d.len() as int)),
        w: rone(),
    }
}

/// The centroid fold can absorb its arguments in either order.
proof fn lemma_pt_fold_commutes()
    ensures
        vstd::seq_lib::commutative_foldl(pt_fold_fn()),
{
    let f = pt_fold_fn();
    assert forall|x: Point, y: Point, v: Vec3Val| #[trigger] f(f(v, x), y) == f(f(v, y), x) by {
        lemma_radd_swap(v.x, x@.x, y@.x);
        lemma_radd_swap(v.y, x@.y, y@.y);
        lemma_radd_swap(v.z, x@.z, y@.z);
    }
}

/// Adding two values to an accumulator gives the same pair in either order.
proof fn lemma_radd_swap(a: Ratio, b: Ratio, c: Ratio)
    ensures
        radd(radd(a, b), c) == radd(radd(a, c), b),
{
    crate::linalg::lemma_distrib2(a.n * b.d, b.n * a.d, c.d);
    crate::linalg::lemma_distrib2(a.n * c.d, c.n * a.d, b.d);
    assert((a.n * b.d) * c.d == (a.n * c.d) * b.d) by (nonlinear_arith);
    assert((b.n * a.d) * c.d == b.n * (a.d * c.d)) by (nonlinear_arith);
    assert(c.n * (a.d * b.d) == (c.n * a.d) * b.d) by (nonlinear_arith);
    assert((a.d * b.d) * c.d == (a.d * c.d) * b.d) by (nonlinear_arith);
}

/// The centre does not depend on the order in which the vertices are listed,
/// and counts duplicated vertices once.
pub proof fn lemma_centroid_order_invariant(s1: Seq<Point>, s2: Seq<Point>)
    requires
        s1.to_multiset() == s2.to_multiset(),
    ensures
        centre_of(s1) == centre_of(s2),
{
    broadcast use vstd::seq_lib::group_to_multiset_ensures;

    let d1 = dedup_spec(s1);
    let d2 = dedup_spec(s2);
    lemma_dedup_props(s1);
    lemma_dedup_props(s2);
    assert forall|p: Point| #[trigger] s1.contains(p) <==> s2.contains(p) by {
        assert(s1.contains(p) <==> s1.to_multiset().count(p) > 0);
        assert(s2.contains(p) <==> s2.to_multiset().count(p) > 0);
    }
    d1.lemma_multiset_has_no_duplicates();
    d2.lemma_multiset_has_no_duplicates();
    assert(d1.to_multiset() =~= d2.to_multiset()) by {
        assert forall|p: Point| d1.to_multiset().count(p) == d2.to_multiset().count(p) by {
            assert(d1.contains(p) <==> d1.to_multiset().count(p) > 0);
            assert(d2.contains(p) <==> d2.to_multiset().count(p) > 0);
            if d1.to_multiset().count(p) > 0 {
                assert(s1.contains(p));
                assert(s2.contains(p));
                assert(d2.contains(p));
                assert(d1.to_multiset().contains(p) && d2.to_multiset().contains(p));
                assert(d1.to_multiset().count(p) == 1 && d2.to_multiset().count(p) == 1);
            } else if d2.to_multiset().count(p) > 0 {
                assert(s2.contains(p));
                assert(s1.contains(p));
                assert(d1.contains(p));
            }
        }
    }
    lemma_pt_fold_commutes();
    lemma_fold_left_permutation(
        d1,
        d2,
        pt_fold_fn(),
        Vec3Val { x: rzero(), y: rzero(), z: rzero() },
    );
    assert(d1.len() == d1.to_multiset().len());
    assert(d2.len() == d2.to_multiset().len());
}

/// Vertices from which the centre computation is guaranteed to stay in
/// range: integer-valued coordinates within 65536, and at least one but at
/// most 32768 distinct vertices.
pub open spec fn centroid_ready(s: Seq<Surface>) -> bool {
    &&& forall|k: int|
        0 <= k < surface_points(s).len() ==> ({
            let p = (#[trigger] surface_points(s)[k])@;
            &&& p.x.d == 1 && -0x10000 <= p.x.n <= 0x10000
            &&& p.y.d == 1 && -0x10000 <= p.y.n <= 0x10000
            &&& p.z.d == 1 && -0x10000 <= p.z.n <= 0x10000
        })
    &&& 1 <= dedup_spec(surface_points(s)).len() <= 0x8000
}

/// Compute the centre of a list of surfaces: the mean of the distinct
/// vertices. Reports nothing when there are no vertices at all, or when the
/// arithmetic leaves the representable range.
pub fn calculate_centre(sides: &Vec<Surface>) -> (r: Option<Point>)
    requires
        surfaces_wf(sides@),
    ensures
        r matches Some(p) ==> vec4_wf(p@) && vec4_eq(p@, centre_of(surface_points(sides@))),
        surface_points(sides@).len() == 0 ==> r is None,
        centroid_ready(sides@) ==> r.is_some(),
{
    let pts = sides_to_points(sides);
    proof {
        assert(forall|i: int| 0 <= i < pts@.len() ==> vec4_wf(#[trigger] pts@[i]@)) by {
            lemma_surface_points_wf(sides@);
        }
    }
    let dd = dedup_points(&pts);
    if dd.len() == 0 {
        return None;
    }
    if dd.len() > 0x7fffffffusize {
        return None;
    }
    proof {
        lemma_dedup_props(pts@);
        assert(forall|i: int| 0 <= i < dd@.len() ==> vec4_wf(#[trigger] dd@[i]@)) by {
            assert forall|i: int| 0 <= i < dd@.len() implies vec4_wf(#[trigger] dd@[i]@) by {
                assert(dd@.contains(dd@[i]));
                assert(pts@.contains(dd@[i]));
                let k = choose|k: int| 0 <= k < pts@.len() && pts@[k] == dd@[i];
            }
        };
    }
    proof {
        assert(centroid_ready(sides@) ==> dd@.len() <= 0x8000 && (forall|k: int|
            0 <= k < dd@.len() ==> ({
                let p = (#[trigger] dd@[k])@;
                &&& p.x.d == 1 && -0x10000 <= p.x.n <= 0x10000
                &&& p.y.d == 1 && -0x10000 <= p.y.n <= 0x10000
                &&& p.z.d == 1 && -0x10000 <= p.z.n <= 0x10000
            }))) by {
            if centroid_ready(sides@) {
                assert forall|k: int| 0 <= k < dd@.len() implies ({
                    let p = (#[trigger] dd@[k])@;
                    &&& p.x.d == 1 && -0x10000 <= p.x.n <= 0x10000
                    &&& p.y.d == 1 && -0x10000 <= p.y.n <= 0x10000
                    &&& p.z.d == 1 && -0x10000 <= p.z.n <= 0x10000
                }) by {
                    assert(dd@.contains(dd@[k]));
                    assert(pts@.contains(dd@[k]));
                    let m = choose|m: int| 0 <= m < pts@.len() && pts@[m] == dd@[k];
                    assert(surface_points(sides@)[m] == dd@[k]);
                }
            }
        };
    }
    let zero = Rat::zero();
    let mut sx = zero;
    let mut sy = zero;
    let mut sz = zero;
    let mut i: usize = 0;
    while i < dd.len()
        invariant
            i <= dd@.len(),
            forall|k: int| 0 <= k < dd@.len() ==> vec4_wf(#[trigger] dd@[k]@),
            rwf(sx@) && rwf(sy@) && rwf(sz@),
            req(sx@, sum_points(dd@.subrange(0, i as int)).x),
            req(sy@, sum_points(dd@.subrange(0, i as int)).y),
            req(sz@, sum_points(dd@.subrange(0, i as int)).z),
            centroid_ready(sides@) ==> dd@.len() <= 0x8000 && (forall|k: int|
                0 <= k < dd@.len() ==> ({
                    let p = (#[trigger] dd@[k])@;
                    &&& p.x.d == 1 && -0x10000 <= p.x.n <= 0x10000
                    &&& p.y.d == 1 && -0x10000 <= p.y.n <= 0x10000
                    &&& p.z.d == 1 && -0x10000 <= p.z.n <= 0x10000
                })),
            centroid_ready(sides@) ==> ({
                &&& sx@.d == 1 && -(i as int) * 0x10000 <= sx@.n <= (i as int) * 0x10000
                &&& sy@.d == 1 && -(i as int) * 0x10000 <= sy@.n <= (i as int) * 0x10000
                &&& sz@.d == 1 && -(i as int) * 0x10000 <= sz@.n <= (i as int) * 0x10000
            }),
        decreases dd@.len() - i,
    {
        let p = dd[i];
        proof {
            assert(vec4_wf(dd@[i as int]@));
            assert(centroid_ready(sides@) ==> crate::rational::radd_fits(sx@, p@.x)
                && crate::rational::radd_fits(sy@, p@.y) && crate::rational::radd_fits(
                sz@,
                p@.z,
            ));
        }
        let ghost pre = dd@.subrange(0, i as int);
        let nx = match rat_add(sx, p.point.x) {
            Some(v) => v,
            None => {
                return None;
            },
        };
        let ny = match rat_add(sy, p.point.y) {
            Some(v) => v,
            None => {
                return None;
            },
        };
        let nz = match rat_add(sz, p.point.z) {
            Some(v) => v,
            None => {
                return None;
            },
        };
        proof {
            assert(centroid_ready(sides@) ==> ({
                &&& nx@.d == 1 && -(i as int + 1) * 0x10000 <= nx@.n <= (i as int + 1) * 0x10000
                &&& ny@.d == 1 && -(i as int + 1) * 0x10000 <= ny@.n <= (i as int + 1) * 0x10000
                &&& nz@.d == 1 && -(i as int + 1) * 0x10000 <= nz@.n <= (i as int + 1) * 0x10000
            }));
        }
        proof {
            let prev = sum_points(pre);
            let next = sum_points(dd@.subrange(0, i as int + 1));
            assert(dd@.subrange(0, i as int + 1).drop_last() =~= pre);
            assert(next == pt_acc(prev, p));
            crate::rational::lemma_den_product(sx@.d, p@.x.d);
            crate::rational::lemma_den_product(sy@.d, p@.y.d);
            crate::rational::lemma_den_product(sz@.d, p@.z.d);
            lemma_req_add(sx@, p@.x, prev.x, p@.x);
            lemma_req_trans(nx@, radd(sx@, p@.x), next.x);
            lemma_req_add(sy@, p@.y, prev.y, p@.y);
            lemma_req_trans(ny@, radd(sy@, p@.y), next.y);
            lemma_req_add(sz@, p@.z, prev.z, p@.z);
            lemma_req_trans(nz@, radd(sz@, p@.z), next.z);
        }
        sx = nx;
        sy = ny;
        sz = nz;
        i = i + 1;
    }
    proof {
        assert(dd@.subrange(0, dd@.len() as int) =~= dd@);
    }
    let count = Rat::from_int(dd.len() as i64);
    proof {
        assert(centroid_ready(sides@) ==> crate::rational::rdiv_fits(sx@, count@)
            && crate::rational::rdiv_fits(sy@, count@) && crate::rational::rdiv_fits(
            sz@,
            count@,
        ));
    }
    let cx = match rat_div(sx, count) {
        Some(v) => v,
        None => {
            return None;
        },
    };
    let cy = match rat_div(sy, count) {
        Some(v) => v,
        None => {
            return None;
        },
    };
    let cz = match rat_div(sz, count) {
        Some(v) => v,
        None => {
            return None;
        },
    };
    proof {
        let d = dedup_spec(surface_points(sides@));
        let sm = sum_points(d);
        let cnt = rint(d.len() as int);
        crate::rational::lemma_den_product(sx@.d, count@.n);
        crate::rational::lemma_den_product(sy@.d, count@.n);
        crate::rational::lemma_den_product(sz@.d, count@.n);
        crate::rational::lemma_req_div(sx@, count@, sm.x, cnt);
        lemma_req_trans(cx@, rdiv(sx@, count@), rdiv(sm.x, cnt));
        crate::rational::lemma_req_div(sy@, count@, sm.y, cnt);
        lemma_req_trans(cy@, rdiv(sy@, count@), rdiv(sm.y, cnt));
        crate::rational::lemma_req_div(sz@, count@, sm.z, cnt);
        lemma_req_trans(cz@, rdiv(sz@, count@), rdiv(sm.z, cnt));
    }
    Some(Point::new(cx, cy, cz, Rat::one()))
}

/// Vertices gathered from well-formed surfaces are well-formed.
proof fn lemma_surface_points_wf(s: Seq<Surface>)
    requires
        surfaces_wf(s),
    ensures
        forall|i: int| 0 <= i < surface_points(s).len() ==> vec4_wf(#[trigger] surface_points(s)[i]@),
    decreases s.len(),
{
    if s.len() == 0 {
    } else {
        let pre = s.drop_last();
        assert(surfaces_wf(pre)) by {
            assert(forall|i: int| 0 <= i < pre.len() ==> #[trigger] pre[i] == s[i]);
        }
        lemma_surface_points_wf(pre);
        assert(forall|j: int|
            0 <= j < s.last().key_points@.len() ==> vec4_wf(#[trigger] s.last().key_points@[j]@));
        assert forall|i: int| 0 <= i < surface_points(s).len() implies vec4_wf(
            #[trigger] surface_points(s)[i]@,
        ) by {
            if i < surface_points(pre).len() {
                assert(surface_points(s)[i] == surface_points(pre)[i]);
            } else {
                assert(surface_points(s)[i] == s.last().key_points@[i - surface_points(
                    pre,
                ).len()]);
            }
        }
    }
}

/// Anything that can hand out its constituent points.
pub trait Point_Construct {
    /// Whether the points are well-formed enough to hand out.
    spec fn points_wf(&self) -> bool;

    /// The constituent points.
    spec fn points_spec(&self) -> Seq<Point>;

    fn get_points(&self) -> (r: Vec<Point>)
        requires
            self.points_wf(),
        ensures
            r@ == self.points_spec(),
            forall|i: int|
                0 <= i < self.points_spec().len() ==> vec4_wf(#[trigger] self.points_spec()[i]@),
    ;
}

/// Mutation by a translation vector.
pub trait Translatable: Sized {
    /// Inputs on which the translation is defined.
    spec fn translate_pre(&self, v: Vec4) -> bool;

    /// How the state after a translation relates to the one before it.
    spec fn translate_rel(&self, post: Self, v: Vec4, ok: bool) -> bool;

    fn translate(&mut self, to_translate_by: Vec4) -> (ok: bool)
        requires
            old(self).translate_pre(to_translate_by),
        ensures
            old(self).translate_rel(*final(self), to_translate_by, ok),
    ;
}

/// Mutation of the orientation: the rotation composes onto it; position is
/// untouched.
pub trait Rotatable: Sized {
    /// Inputs on which the rotation is defined.
    spec fn rotate_pre(&self, m: Mat3) -> bool;

    /// How the state after a rotation relates to the one before it.
    spec fn rotate_rel(&self, post: Self, m: Mat3, ok: bool) -> bool;

    fn rotate(&mut self, to_rotate_by: Mat3) -> (ok: bool)
        requires
            old(self).rotate_pre(to_rotate_by),
        ensures
            old(self).rotate_rel(*final(self), to_rotate_by, ok),
    ;
}

impl Point_Construct for Point {
    open spec fn points_wf(&self) -> bool {
        vec4_wf(self@)
    }

    open spec fn points_spec(&self) -> Seq<Point> {
        seq![*self]
    }

    fn get_points(&self) -> (r: Vec<Point>) {
        let mut v: Vec<Point> = Vec::new();
        v.push(*self);
        proof {
            assert(v@ =~= seq![*self]);
        }
        v
    }
}

impl Point_Construct for Line {
    open spec fn points_wf(&self) -> bool {
        vec4_wf(self.point_a@) && vec4_wf(self.point_b@)
    }

    open spec fn points_spec(&self) -> Seq<Point> {
        seq![self.point_a, self.point_b]
    }

    fn get_points(&self) -> (r: Vec<Point>) {
        let mut v: Vec<Point> = Vec::new();
        v.push(self.point_a);
        v.push(self.point_b);
        proof {
            assert(v@ =~= seq![self.point_a, self.point_b]);
        }
        v
    }
}

/// A polyhedron: an orientation, surfaces, and a derived centre.
#[derive(Clone, Debug)]
pub struct PerspectiveObject {
    pub orientation: Mat3,
    pub centre: Point,
    pub sides: Vec<Surface>,
}

impl PerspectiveObject {
    /// Build an object from its surfaces. The orientation starts at zero and
    /// the centre is derived from the distinct vertices; an object with no
    /// vertices, or one whose centre leaves the representable range, is
    /// rejected.
    pub fn new(given_sides: Vec<Surface>) -> (r: Option<Self>)
        requires
            surfaces_wf(given_sides@),
        ensures
            r matches Some(o) ==> {
                &&& o.sides@ == given_sides@
                &&& vec4_wf(o.centre@)
                &&& vec4_eq(o.centre@, centre_of(surface_points(given_sides@)))
                &&& o.orientation@.m11 == rzero() && o.orientation@.m12 == rzero()
                &&& o.orientation@.m13 == rzero() && o.orientation@.m21 == rzero()
                &&& o.orientation@.m22 == rzero() && o.orientation@.m23 == rzero()
                &&& o.orientation@.m31 == rzero() && o.orientation@.m32 == rzero()
                &&& o.orientation@.m33 == rzero()
            },
            surface_points(given_sides@).len() == 0 ==> r is None,
            centroid_ready(given_sides@) ==> r.is_some(),
    {
        let centre = match calculate_centre(&given_sides) {
            Some(c) => c,
            None => {
                return None;
            },
        };
        Some(
            PerspectiveObject {
                orientation: crate::linalg::mat3_zero(),
                centre,
                sides: given_sides,
            },
        )
    }
}

impl Point_Construct for PerspectiveObject {
    // The constituent points are the distinct vertices in first-occurrence
    // order: exact-equality deduplication fixes the order without any sort.
    open spec fn points_wf(&self) -> bool {
        surfaces_wf(self.sides@)
    }

    open spec fn points_spec(&self) -> Seq<Point> {
        dedup_spec(surface_points(self.sides@))
    }

    fn get_points(&self) -> (r: Vec<Point>) {
        let pts = sides_to_points(&self.sides);
        let dd = dedup_points(&pts);
        proof {
            lemma_surface_points_wf(self.sides@);
            lemma_dedup_props(pts@);
            assert forall|i: int| 0 <= i < self.points_spec().len() implies vec4_wf(
                #[trigger] self.points_spec()[i]@,
            ) by {
                let d = self.points_spec();
                assert(d.contains(d[i]));
                assert(pts@.contains(d[i]));
                let k = choose|k: int| 0 <= k < pts@.len() && pts@[k] == d[i];
            }
        }
        dd
    }
}

impl Translatable for PerspectiveObject {
    open spec fn translate_pre(&self, v: Vec4) -> bool {
        vec4_wf(self.centre@) && vec4_wf(v@)
    }

    open spec fn translate_rel(&self, post: Self, v: Vec4, ok: bool) -> bool {
        &&& if ok {
            &&& vec4_wf(post.centre@)
            &&& vec4_eq(post.centre@, v4_add(self.centre@, v@))
            &&& post.orientation == self.orientation
            &&& post.sides@ == self.sides@
        } else {
            post == *self
        }
        &&& v4_add_fits(self.centre@, v@) ==> ok
    }

    fn translate(&mut self, to_translate_by: Vec4) -> (ok: bool) {
        let p = Point::vector_to_point(to_translate_by);
        match self.centre.add(&p) {
            Some(c) => {
                self.centre = c;
                true
            },
            None => false,
        }
    }
}

impl Rotatable for PerspectiveObject {
    open spec fn rotate_pre(&self, m: Mat3) -> bool {
        crate::linalg::mat3_wf(self.orientation@) && crate::linalg::mat3_wf(m@)
    }

    open spec fn rotate_rel(&self, post: Self, m: Mat3, ok: bool) -> bool {
        &&& if ok {
            &&& crate::linalg::mat3_wf(post.orientation@)
            &&& crate::linalg::mat3_eq(
                post.orientation@,
                crate::linalg::m3_mul_m3(self.orientation@, m@),
            )
            &&& post.centre == self.centre
            &&& post.sides@ == self.sides@
        } else {
            post == *self
        }
        &&& crate::linalg::m3m3_fits(self.orientation@, m@) ==> ok
    }

    fn rotate(&mut self, to_rotate_by: Mat3) -> (ok: bool) {
        match crate::linalg::mat3_mul(&self.orientation, &to_rotate_by) {
            Some(m) => {
                self.orientation = m;
                true
            },
            None => false,
        }
    }
}

/// The structural denominator of a squared magnitude is positive.
proof fn lemma_sq_mag_den_pos(v: Vec4Val)
    requires
        vec4_wf(v),
    ensures
        1 <= sq_mag(v).d,
{
    assert(sq_mag(v).d == ((v.x.d * v.x.d) * (v.y.d * v.y.d)) * (v.z.d * v.z.d));
    assert(1 <= ((v.x.d * v.x.d) * (v.y.d * v.y.d)) * (v.z.d * v.z.d)) by (nonlinear_arith)
        requires
            1 <= v.x.d && 1 <= v.y.d && 1 <= v.z.d,
    ;
}

} // verus!
