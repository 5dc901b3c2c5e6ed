//! What holds of the overlap and intersection tests for every input.

use crate::collider::{
    box_of, boxes_overlap, covers_point, cross, edge_hit, in_span, int_max, int_min,
    lemma_box_holds_points, orientation_of, part_way_inside, segment_meets_box,
    segments_intersect, shape_intersects, shapes_collide, shifted, world_points, Collider,
    IntPoint, Point,
};
use vstd::prelude::*;

verus! {

/// Whether two boxes overlap does not depend on which of them is named first.
pub proof fn lemma_overlap_is_symmetric(a: (IntPoint, IntPoint), b: (IntPoint, IntPoint))
    ensures
        boxes_overlap(a, b) == boxes_overlap(b, a),
{
}

/// Whether two shapes collide does not depend on which of them is asked.
pub proof fn lemma_collision_is_symmetric(
    a: Collider,
    a_pos: Point,
    b: Collider,
    b_pos: Point,
)
    ensures
        shapes_collide(
            world_points(a.spec_points(), a_pos),
            world_points(b.spec_points(), b_pos),
        ) == shapes_collide(
            world_points(b.spec_points(), b_pos),
            world_points(a.spec_points(), a_pos),
        ),
{
}

/// A shape of one point covers that point and no other.
pub proof fn lemma_single_point_covers_itself(pts: Seq<IntPoint>, point: IntPoint)
    requires
        pts.len() == 1,
    ensures
        covers_point(pts, point) == (point == pts[0]),
{
}

/// The least corner of the box is nowhere beyond its greatest corner.
pub open spec fn box_is_ordered(b: (IntPoint, IntPoint)) -> bool {
    b.0.x <= b.1.x && b.0.y <= b.1.y && b.0.z <= b.1.z
}

/// One of two ranges ends where the other begins.
pub open spec fn ranges_touch(lo1: int, hi1: int, lo2: int, hi2: int) -> bool {
    hi1 == lo2 || hi2 == lo1
}

/// Two ranges have a value in common.
pub open spec fn ranges_overlap(lo1: int, hi1: int, lo2: int, hi2: int) -> bool {
    lo1 <= hi2 && lo2 <= hi1
}

/// The boxes lie against each other: along one axis one ends where the other
/// begins, and along the other two axes their ranges overlap.
pub open spec fn share_face(a: (IntPoint, IntPoint), b: (IntPoint, IntPoint)) -> bool {
    ||| (ranges_touch(a.0.x, a.1.x, b.0.x, b.1.x) && ranges_overlap(a.0.y, a.1.y, b.0.y, b.1.y)
        && ranges_overlap(a.0.z, a.1.z, b.0.z, b.1.z))
    ||| (ranges_touch(a.0.y, a.1.y, b.0.y, b.1.y) && ranges_overlap(a.0.x, a.1.x, b.0.x, b.1.x)
        && ranges_overlap(a.0.z, a.1.z, b.0.z, b.1.z))
    ||| (ranges_touch(a.0.z, a.1.z, b.0.z, b.1.z) && ranges_overlap(a.0.x, a.1.x, b.0.x, b.1.x)
        && ranges_overlap(a.0.y, a.1.y, b.0.y, b.1.y))
}

/// Two boxes that share no more than a face overlap.
pub proof fn lemma_touching_boxes_overlap(a: (IntPoint, IntPoint), b: (IntPoint, IntPoint))
    requires
        box_is_ordered(a),
        box_is_ordered(b),
        share_face(a, b),
    ensures
        boxes_overlap(a, b),
{
}

/// The point `n1 / den` of the way from `a` to `b` is the point `n2 / den` of
/// the way from `c` to `d`, seen along the z axis.
pub open spec fn meet_at(
    a: IntPoint,
    b: IntPoint,
    c: IntPoint,
    d: IntPoint,
    n1: int,
    n2: int,
    den: int,
) -> bool {
    &&& den > 0
    &&& 0 <= n1 <= den
    &&& 0 <= n2 <= den
    &&& den * a.x + n1 * (b.x - a.x) == den * c.x + n2 * (d.x - c.x)
    &&& den * a.y + n1 * (b.y - a.y) == den * c.y + n2 * (d.y - c.y)
}

/// The segments `a b` and `c d`, seen along the z axis, have a point in
/// common. Such a point has rational coordinates, so it is named by how far
/// along each segment it lies.
pub open spec fn segments_meet(a: IntPoint, b: IntPoint, c: IntPoint, d: IntPoint) -> bool {
    exists|n1: int, n2: int, den: int| meet_at(a, b, c, d, n1, n2, den)
}

/// The four points lie in one plane of constant z.
pub open spec fn level(a: IntPoint, b: IntPoint, c: IntPoint, d: IntPoint) -> bool {
    a.z == b.z && b.z == c.z && c.z == d.z
}

spec fn cr(px: int, py: int, qx: int, qy: int, rx: int, ry: int) -> int {
    (qy - py) * (rx - qx) - (qx - px) * (ry - qy)
}

/// With `u = b - a`, `v = d - c` and `w = c - a`: the four cross products of
/// two segments, written in `u`, `v` and `w`.
#[verifier::rlimit(40)]
proof fn lemma_cross_in_differences(
    ax: int,
    ay: int,
    bx: int,
    by: int,
    cx: int,
    cy: int,
    dx: int,
    dy: int,
)
    ensures
        cr(ax, ay, bx, by, cx, cy) == (by - ay) * (cx - ax) - (bx - ax) * (cy - ay),
        cr(ax, ay, bx, by, dx, dy) == (by - ay) * (cx - ax) - (bx - ax) * (cy - ay) + (by - ay)
            * (dx - cx) - (bx - ax) * (dy - cy),
        cr(cx, cy, dx, dy, ax, ay) == (dx - cx) * (cy - ay) - (dy - cy) * (cx - ax),
        cr(cx, cy, dx, dy, bx, by) == (dx - cx) * (cy - ay) - (dy - cy) * (cx - ax) + (dy - cy)
            * (bx - ax) - (dx - cx) * (by - ay),
{
    let ux = bx - ax;
    let uy = by - ay;
    let vx = dx - cx;
    let vy = dy - cy;
    let wx = cx - ax;
    let wy = cy - ay;
    assert(uy * (wx - ux) - ux * (wy - uy) == uy * wx - ux * wy) by (nonlinear_arith);
    assert(uy * (wx + vx - ux) - ux * (wy + vy - uy) == uy * wx - ux * wy + uy * vx - ux * vy)
        by (nonlinear_arith);
    assert(vy * (-wx - vx) - vx * (-wy - vy) == vx * wy - vy * wx) by (nonlinear_arith);
    assert(vy * (ux - wx - vx) - vx * (uy - wy - vy) == vx * wy - vy * wx + vy * ux - vx * uy)
        by (nonlinear_arith);
    assert(cx - bx == wx - ux);
    assert(cy - by == wy - uy);
    assert(dx - bx == wx + vx - ux);
    assert(dy - by == wy + vy - uy);
    assert(ax - dx == -wx - vx);
    assert(ay - dy == -wy - vy);
    assert(bx - dx == ux - wx - vx);
    assert(by - dy == uy - wy - vy);
}

/// The rule by which two lines are cut: with `o1 = u x w`, `o3 = v x w` (as
/// above) and `det = u x v`, the point `o1 / det` along `v` from `c` is the
/// point `-o3 / det` along `u` from `a`.
#[verifier::rlimit(40)]
proof fn lemma_cut(u1: int, u2: int, v1: int, v2: int, w1: int, w2: int)
    ensures
        (u1 * v2 - u2 * v1) * w1 + (v1 * w2 - v2 * w1) * u1 + (u2 * w1 - u1 * w2) * v1 == 0,
        (u1 * v2 - u2 * v1) * w2 + (v1 * w2 - v2 * w1) * u2 + (u2 * w1 - u1 * w2) * v2 == 0,
{
    assert((u1 * v2 - u2 * v1) * w1 == u1 * v2 * w1 - u2 * v1 * w1) by (nonlinear_arith);
    assert((v1 * w2 - v2 * w1) * u1 == v1 * w2 * u1 - u1 * v2 * w1) by (nonlinear_arith);
    assert((u2 * w1 - u1 * w2) * v1 == u2 * v1 * w1 - v1 * w2 * u1) by (nonlinear_arith);
    assert((u1 * v2 - u2 * v1) * w2 == u1 * v2 * w2 - u2 * v1 * w2) by (nonlinear_arith);
    assert((v1 * w2 - v2 * w1) * u2 == u2 * v1 * w2 - v2 * w1 * u2) by (nonlinear_arith);
    assert((u2 * w1 - u1 * w2) * v2 == v2 * w1 * u2 - u1 * v2 * w2) by (nonlinear_arith);
}

/// The point `n / den` of the way from `a` to `b` is `r`, seen along the z
/// axis.
pub open spec fn along_at(a: IntPoint, b: IntPoint, r: IntPoint, n: int, den: int) -> bool {
    &&& den > 0
    &&& 0 <= n <= den
    &&& den * a.x + n * (b.x - a.x) == den * r.x
    &&& den * a.y + n * (b.y - a.y) == den * r.y
}

/// `r` lies in the span of `p` and `q` along x and y.
pub open spec fn in_flat_span(p: IntPoint, q: IntPoint, r: IntPoint) -> bool {
    &&& int_min(p.x, q.x) <= r.x <= int_max(p.x, q.x)
    &&& int_min(p.y, q.y) <= r.y <= int_max(p.y, q.y)
}

#[verifier::rlimit(40)]
proof fn lemma_scaled_step(den: int, base: int, n: int, step: int)
    ensures
        den * (base + step) == den * base + den * step,
        (-n) * step == -(n * step),
        (-den) * base == -(den * base),
        n * step == step * n,
{
    assert(den * (base + step) == den * base + den * step) by (nonlinear_arith);
    assert((-n) * step == -(n * step)) by (nonlinear_arith);
    assert((-den) * base == -(den * base)) by (nonlinear_arith);
    assert(n * step == step * n) by (nonlinear_arith);
}

#[verifier::rlimit(40)]
proof fn lemma_along_one_axis(w: int, h: int, v: int, k: int) -> (r: (int, int))
    requires
        h * v == w * k,
        int_min(0, w) <= v <= int_max(0, w),
        int_min(0, h) <= k <= int_max(0, h),
    ensures
        r.1 > 0,
        0 <= r.0 <= r.1,
        r.0 * w == r.1 * v,
        r.0 * h == r.1 * k,
{
    if w > 0 {
        assert(v * w == w * v && v * h == h * v) by (nonlinear_arith);
        (v, w)
    } else if w < 0 {
        assert((-v) * w == (-w) * v && (-v) * h == -(h * v) && (-w) * k == -(w * k))
            by (nonlinear_arith);
        (-v, -w)
    } else if h > 0 {
        assert(k * h == h * k) by (nonlinear_arith);
        assert(k * w == h * v) by (nonlinear_arith)
            requires
                w == 0,
                v == 0,
        ;
        (k, h)
    } else if h < 0 {
        assert((-k) * h == (-h) * k) by (nonlinear_arith);
        assert((-k) * w == (-h) * v) by (nonlinear_arith)
            requires
                w == 0,
                v == 0,
        ;
        (-k, -h)
    } else {
        (0, 1)
    }
}

/// A point on the line of a segment and within its span lies some fraction of
/// the way along it.
#[verifier::rlimit(40)]
pub proof fn lemma_point_lies_along(a: IntPoint, b: IntPoint, r: IntPoint) -> (f: (int, int))
    requires
        cross(a, b, r) == 0,
        in_flat_span(a, b, r),
    ensures
        along_at(a, b, r, f.0, f.1),
{
    let w = b.x - a.x;
    let h = b.y - a.y;
    let v = r.x - a.x;
    let k = r.y - a.y;
    assert(h * (v - w) - w * (k - h) == h * v - w * k) by (nonlinear_arith);
    assert(r.x - b.x == v - w);
    assert(r.y - b.y == k - h);
    let f = lemma_along_one_axis(w, h, v, k);
    lemma_scaled_step(f.1, a.x, f.0, v);
    lemma_scaled_step(f.1, a.y, f.0, k);
    assert(r.x == a.x + v);
    assert(r.y == a.y + k);
    f
}

/// The general case of the orientation test: each segment has its ends on
/// different sides of the other's line. The lines then cut each other within
/// both segments.
#[verifier::rlimit(40)]
proof fn lemma_crossing_segments_meet(a: IntPoint, b: IntPoint, c: IntPoint, d: IntPoint)
    requires
        orientation_of(a, b, c) != orientation_of(a, b, d),
        orientation_of(c, d, a) != orientation_of(c, d, b),
    ensures
        segments_meet(a, b, c, d),
{
    let ux = b.x - a.x;
    let uy = b.y - a.y;
    let vx = d.x - c.x;
    let vy = d.y - c.y;
    let wx = c.x - a.x;
    let wy = c.y - a.y;
    let o1 = cross(a, b, c);
    let o2 = cross(a, b, d);
    let o3 = cross(c, d, a);
    let o4 = cross(c, d, b);
    lemma_cross_in_differences(a.x, a.y, b.x, b.y, c.x, c.y, d.x, d.y);
    lemma_cut(ux, uy, vx, vy, wx, wy);
    let det = ux * vy - uy * vx;
    assert(vy * ux == ux * vy && vx * uy == uy * vx) by (nonlinear_arith);
    assert(o1 == uy * wx - ux * wy);
    assert(o3 == vx * wy - vy * wx);
    assert(o1 - o2 == det);
    assert(o4 - o3 == det);
    assert(det * wx + o3 * ux + o1 * vx == 0);
    assert(det * wy + o3 * uy + o1 * vy == 0);
    assert(c.x == a.x + wx && c.y == a.y + wy);
    if det > 0 {
        let n1 = -o3;
        let n2 = o1;
        assert(det * a.x + n1 * ux == det * c.x + n2 * vx) by (nonlinear_arith)
            requires
                det * wx + o3 * ux + o1 * vx == 0,
                c.x == a.x + wx,
                n1 == -o3,
                n2 == o1,
        ;
        assert(det * a.y + n1 * uy == det * c.y + n2 * vy) by (nonlinear_arith)
            requires
                det * wy + o3 * uy + o1 * vy == 0,
                c.y == a.y + wy,
                n1 == -o3,
                n2 == o1,
        ;
        assert(meet_at(a, b, c, d, n1, n2, det));
    } else {
        assert(det < 0);
        let n1 = o3;
        let n2 = -o1;
        let den = -det;
        assert(den * a.x + n1 * ux == den * c.x + n2 * vx) by (nonlinear_arith)
            requires
                det * wx + o3 * ux + o1 * vx == 0,
                c.x == a.x + wx,
                n1 == o3,
                n2 == -o1,
                den == -det,
        ;
        assert(den * a.y + n1 * uy == den * c.y + n2 * vy) by (nonlinear_arith)
            requires
                det * wy + o3 * uy + o1 * vy == 0,
                c.y == a.y + wy,
                n1 == o3,
                n2 == -o1,
                den == -det,
        ;
        assert(meet_at(a, b, c, d, n1, n2, den));
    }
}

/// Segments that pass the orientation test have a point in common, seen along
/// the z axis.
pub proof fn lemma_intersecting_segments_meet(a: IntPoint, b: IntPoint, c: IntPoint, d: IntPoint)
    requires
        segments_intersect(a, b, c, d),
    ensures
        segments_meet(a, b, c, d),
{
    let o1 = orientation_of(a, b, c);
    let o2 = orientation_of(a, b, d);
    let o3 = orientation_of(c, d, a);
    let o4 = orientation_of(c, d, b);
    if o1 != o2 && o3 != o4 {
        lemma_crossing_segments_meet(a, b, c, d);
    } else if o1 == 0 && in_span(a, b, c) {
        let f = lemma_point_lies_along(a, b, c);
        assert(meet_at(a, b, c, d, f.0, 0, f.1));
    } else if o2 == 0 && in_span(a, b, d) {
        let f = lemma_point_lies_along(a, b, d);
        lemma_scaled_step(f.1, c.x, 0, d.x - c.x);
        lemma_scaled_step(f.1, c.y, 0, d.y - c.y);
        assert(meet_at(a, b, c, d, f.0, f.1, f.1));
    } else if o3 == 0 && in_span(c, d, a) {
        let f = lemma_point_lies_along(c, d, a);
        assert(meet_at(a, b, c, d, 0, f.0, f.1));
    } else {
        let f = lemma_point_lies_along(c, d, b);
        lemma_scaled_step(f.1, a.x, 0, b.x - a.x);
        lemma_scaled_step(f.1, a.y, 0, b.y - a.y);
        assert(meet_at(a, b, c, d, f.1, f.0, f.1));
    }
}

/// On a line that is not upright, a point between two others along x is
/// between them along y too.
#[verifier::rlimit(40)]
proof fn lemma_on_line_within(w: int, h: int, v: int, k: int)
    requires
        w != 0,
        h * v == w * k,
        int_min(0, w) <= v <= int_max(0, w),
    ensures
        int_min(0, h) <= k <= int_max(0, h),
{
    assert(int_min(0, h) <= k <= int_max(0, h)) by (nonlinear_arith)
        requires
            w != 0,
            h * v == w * k,
            (0 <= v && v <= w) || (w <= v && v <= 0),
            int_min(0, h) == (if 0 <= h { 0 } else { h }),
            int_max(0, h) == (if 0 >= h { 0 } else { h }),
    {
        if w > 0 {
            if h >= 0 {
                assert(0 <= h * v <= h * w);
                assert(w * h == h * w);
            } else {
                assert(h * w <= h * v <= 0);
                assert(w * h == h * w);
            }
        } else {
            if h >= 0 {
                assert(h * w <= h * v <= 0);
                assert(w * h == h * w);
            } else {
                assert(0 <= h * v <= h * w);
                assert(w * h == h * w);
            }
        }
    }
}

/// A point part of the way from `p` to `q` lies between them.
#[verifier::rlimit(40)]
proof fn lemma_part_way_is_between(den: int, n: int, p: int, q: int, r: int)
    requires
        den > 0,
        0 <= n <= den,
        den * p + n * (q - p) == den * r,
    ensures
        int_min(p, q) <= r <= int_max(p, q),
{
    assert(int_min(p, q) <= r <= int_max(p, q)) by (nonlinear_arith)
        requires
            den > 0,
            0 <= n <= den,
            den * p + n * (q - p) == den * r,
            int_min(p, q) == (if p <= q { p } else { q }),
            int_max(p, q) == (if p >= q { p } else { q }),
    {
        assert(den * r - den * p == den * (r - p));
        if q >= p {
            assert(0 <= n * (q - p) <= den * (q - p));
        } else {
            assert(den * (q - p) <= n * (q - p) <= 0);
        }
    }
}

/// Two spans that hold a common value: an end of one lies in the other.
#[verifier::rlimit(40)]
proof fn lemma_common_value(den: int, n1: int, n2: int, a: int, b: int, c: int, d: int)
    requires
        den > 0,
        0 <= n1 <= den,
        0 <= n2 <= den,
        den * a + n1 * (b - a) == den * c + n2 * (d - c),
    ensures
        int_min(a, b) <= int_max(c, d),
        int_min(c, d) <= int_max(a, b),
{
    assert(int_min(a, b) <= int_max(c, d) && int_min(c, d) <= int_max(a, b)) by (nonlinear_arith)
        requires
            den > 0,
            0 <= n1 <= den,
            0 <= n2 <= den,
            den * a + n1 * (b - a) == den * c + n2 * (d - c),
            int_min(a, b) == (if a <= b { a } else { b }),
            int_max(a, b) == (if a >= b { a } else { b }),
            int_min(c, d) == (if c <= d { c } else { d }),
            int_max(c, d) == (if c >= d { c } else { d }),
    {
        let x = den * a + n1 * (b - a);
        if b >= a {
            assert(0 <= n1 * (b - a) <= den * (b - a));
        } else {
            assert(den * (b - a) <= n1 * (b - a) <= 0);
        }
        if d >= c {
            assert(0 <= n2 * (d - c) <= den * (d - c));
        } else {
            assert(den * (d - c) <= n2 * (d - c) <= 0);
        }
        assert(den * (b - a) == den * b - den * a);
        assert(den * (d - c) == den * d - den * c);
    }
}

/// What follows where two segments have a point in common: the cross products
/// of each segment with the ends of the other, scaled, are parts of one
/// number, the cross product of the two directions.
#[verifier::rlimit(40)]
proof fn lemma_meeting_cross_products(
    ux: int,
    uy: int,
    vx: int,
    vy: int,
    wx: int,
    wy: int,
    n1: int,
    n2: int,
    den: int,
)
    requires
        n1 * ux == den * wx + n2 * vx,
        n1 * uy == den * wy + n2 * vy,
    ensures
        den * (uy * wx - ux * wy) == n2 * (ux * vy - uy * vx),
        den * (vx * wy - vy * wx) == -(n1 * (ux * vy - uy * vx)),
{
    lemma_product_of_three(den, uy, wx);
    lemma_product_of_three(den, ux, wy);
    lemma_product_of_three(den, vx, wy);
    lemma_product_of_three(den, vy, wx);
    lemma_product_of_three(n1, ux, uy);
    lemma_product_of_three(n1, uy, ux);
    lemma_product_of_three(n1, ux, vy);
    lemma_product_of_three(n1, uy, vx);
    lemma_product_of_three(n2, ux, vy);
    lemma_product_of_three(n2, uy, vx);
    lemma_product_of_three(n2, vx, vy);
    lemma_product_of_three(n2, vy, vx);
    lemma_product_of_three(n1, vx, uy);
    lemma_product_of_three(n1, vy, ux);
    lemma_spread(den, uy * wx, ux * wy);
    lemma_spread(den, vx * wy, vy * wx);
    lemma_spread(uy, n1 * ux, n2 * vx);
    lemma_spread(ux, n1 * uy, n2 * vy);
    lemma_spread(vx, n1 * uy, n2 * vy);
    lemma_spread(vy, n1 * ux, n2 * vx);
    lemma_spread(n2, ux * vy, uy * vx);
    lemma_spread(n1, ux * vy, uy * vx);
    assert(den * wx == n1 * ux - n2 * vx);
    assert(den * wy == n1 * uy - n2 * vy);
    assert(ux * uy == uy * ux && vx * vy == vy * vx && ux * vy == vy * ux && uy * vx == vx * uy)
        by (nonlinear_arith);
}

/// `a * (b * c)` in each order that the proofs here meet it.
#[verifier::rlimit(40)]
proof fn lemma_product_of_three(a: int, b: int, c: int)
    ensures
        a * (b * c) == b * (a * c),
        a * (b * c) == c * (a * b),
        a * (b * c) == (a * b) * c,
{
    assert(a * (b * c) == b * (a * c)) by (nonlinear_arith);
    assert(a * (b * c) == c * (a * b)) by (nonlinear_arith);
    assert(a * (b * c) == (a * b) * c) by (nonlinear_arith);
}

#[verifier::rlimit(40)]
proof fn lemma_spread(a: int, b: int, c: int)
    ensures
        a * (b - c) == a * b - a * c,
{
    assert(a * (b - c) == a * b - a * c) by (nonlinear_arith);
}

#[verifier::rlimit(40)]
proof fn lemma_sign_of_part(den: int, o: int, n: int, det: int)
    requires
        den > 0,
        n >= 0,
        den * o == n * det,
    ensures
        det > 0 ==> o >= 0,
        det < 0 ==> o <= 0,
        det == 0 ==> o == 0,
{
    assert((det > 0 ==> o >= 0) && (det < 0 ==> o <= 0) && (det == 0 ==> o == 0))
        by (nonlinear_arith)
        requires
            den > 0,
            n >= 0,
            den * o == n * det,
    ;
}

/// Four points on one line, in a plane of constant z, whose segments have a
/// point in common: an end of one segment lies in the span of the other.
#[verifier::rlimit(40)]
proof fn lemma_meeting_on_one_line(
    a: IntPoint,
    b: IntPoint,
    c: IntPoint,
    d: IntPoint,
    n1: int,
    n2: int,
    den: int,
)
    requires
        meet_at(a, b, c, d, n1, n2, den),
        level(a, b, c, d),
        cross(a, b, c) == 0,
        cross(a, b, d) == 0,
        cross(c, d, a) == 0,
        cross(c, d, b) == 0,
    ensures
        in_span(a, b, c) || in_span(a, b, d) || in_span(c, d, a),
{
    let ux = b.x - a.x;
    let uy = b.y - a.y;
    let vx = d.x - c.x;
    let vy = d.y - c.y;
    lemma_cross_in_differences(a.x, a.y, b.x, b.y, c.x, c.y, c.x, c.y);
    lemma_cross_in_differences(a.x, a.y, b.x, b.y, d.x, d.y, d.x, d.y);
    lemma_cross_in_differences(c.x, c.y, d.x, d.y, a.x, a.y, a.x, a.y);
    assert(uy * (c.x - a.x) == ux * (c.y - a.y));
    assert(uy * (d.x - a.x) == ux * (d.y - a.y));
    assert(vy * (a.x - c.x) == vx * (a.y - c.y));
    lemma_common_value(den, n1, n2, a.x, b.x, c.x, d.x);
    lemma_common_value(den, n1, n2, a.y, b.y, c.y, d.y);
    if ux != 0 {
        if int_min(a.x, b.x) <= c.x <= int_max(a.x, b.x) {
            lemma_on_line_within(ux, uy, c.x - a.x, c.y - a.y);
            assert(in_span(a, b, c));
        } else if int_min(a.x, b.x) <= d.x <= int_max(a.x, b.x) {
            lemma_on_line_within(ux, uy, d.x - a.x, d.y - a.y);
            assert(in_span(a, b, d));
        } else {
            assert(vx != 0);
            lemma_on_line_within(vx, vy, a.x - c.x, a.y - c.y);
            assert(in_span(c, d, a));
        }
    } else if uy != 0 {
        assert(ux * (c.y - a.y) == uy * (c.x - a.x));
        assert(ux * (d.y - a.y) == uy * (d.x - a.x));
        assert(vx * (a.y - c.y) == vy * (a.x - c.x));
        if int_min(a.y, b.y) <= c.y <= int_max(a.y, b.y) {
            lemma_on_line_within(uy, ux, c.y - a.y, c.x - a.x);
            assert(in_span(a, b, c));
        } else if int_min(a.y, b.y) <= d.y <= int_max(a.y, b.y) {
            lemma_on_line_within(uy, ux, d.y - a.y, d.x - a.x);
            assert(in_span(a, b, d));
        } else {
            assert(vy != 0);
            lemma_on_line_within(vy, vx, a.y - c.y, a.x - c.x);
            assert(in_span(c, d, a));
        }
    } else {
        lemma_part_way_is_between(den, n2, c.x, d.x, a.x);
        lemma_part_way_is_between(den, n2, c.y, d.y, a.y);
        assert(in_span(c, d, a));
    }
}

/// Segments in a plane of constant z that have a point in common pass the
/// orientation test.
#[verifier::rlimit(40)]
pub proof fn lemma_meeting_segments_intersect(a: IntPoint, b: IntPoint, c: IntPoint, d: IntPoint)
    requires
        segments_meet(a, b, c, d),
        level(a, b, c, d),
    ensures
        segments_intersect(a, b, c, d),
{
    let (n1, n2, den) = choose|n1: int, n2: int, den: int| meet_at(a, b, c, d, n1, n2, den);
    let ux = b.x - a.x;
    let uy = b.y - a.y;
    let vx = d.x - c.x;
    let vy = d.y - c.y;
    let wx = c.x - a.x;
    let wy = c.y - a.y;
    let o1 = cross(a, b, c);
    let o2 = cross(a, b, d);
    let o3 = cross(c, d, a);
    let o4 = cross(c, d, b);
    let det = ux * vy - uy * vx;
    lemma_cross_in_differences(a.x, a.y, b.x, b.y, c.x, c.y, d.x, d.y);
    assert(vy * ux == ux * vy && vx * uy == uy * vx) by (nonlinear_arith);
    assert(o1 == uy * wx - ux * wy);
    assert(o3 == vx * wy - vy * wx);
    assert(o2 == o1 - det);
    assert(o4 == o3 + det);
    lemma_scaled_step(den, a.x, n1, wx);
    lemma_scaled_step(den, a.y, n1, wy);
    assert(c.x == a.x + wx && c.y == a.y + wy);
    assert(n1 * ux == den * wx + n2 * vx);
    assert(n1 * uy == den * wy + n2 * vy);
    lemma_meeting_cross_products(ux, uy, vx, vy, wx, wy, n1, n2, den);
    assert(den * (-o2) == (den - n2) * det) by (nonlinear_arith)
        requires
            den * o1 == n2 * det,
            o2 == o1 - det,
    ;
    assert(den * (-o3) == n1 * det) by (nonlinear_arith)
        requires
            den * o3 == -(n1 * det),
    ;
    assert(den * o4 == (den - n1) * det) by (nonlinear_arith)
        requires
            den * o3 == -(n1 * det),
            o4 == o3 + det,
    ;
    lemma_sign_of_part(den, o1, n2, det);
    lemma_sign_of_part(den, -o2, den - n2, det);
    lemma_sign_of_part(den, -o3, n1, det);
    lemma_sign_of_part(den, o4, den - n1, det);
    if det == 0 {
        lemma_meeting_on_one_line(a, b, c, d, n1, n2, den);
    }
}

#[verifier::rlimit(40)]
proof fn lemma_part_way_in_range(den: int, n: int, p: int, q: int, lo: int, hi: int)
    requires
        den > 0,
        0 <= n <= den,
        lo <= p <= hi,
        lo <= q <= hi,
    ensures
        den * lo <= den * p + n * (q - p) <= den * hi,
{
    assert(den * lo <= den * p + n * (q - p) <= den * hi) by (nonlinear_arith)
        requires
            den > 0,
            0 <= n <= den,
            lo <= p <= hi,
            lo <= q <= hi,
    {
        assert(den * p + n * (q - p) == (den - n) * p + n * q);
        assert((den - n) * lo <= (den - n) * p <= (den - n) * hi);
        assert(n * lo <= n * q <= n * hi);
        assert((den - n) * lo + n * lo == den * lo);
        assert((den - n) * hi + n * hi == den * hi);
    }
}

/// A segment that has a point in common with an edge of a shape, all in one
/// plane of constant z, intersects the shape.
pub proof fn lemma_crossed_edge_intersects(pts: Seq<IntPoint>, a: IntPoint, b: IntPoint, i: int)
    requires
        0 <= i < pts.len(),
        level(a, b, pts[i], pts[(i + 1) % (pts.len() as int)]),
        segments_meet(a, b, pts[i], pts[(i + 1) % (pts.len() as int)]),
    ensures
        shape_intersects(pts, a, b),
{
    let j = (i + 1) % (pts.len() as int);
    lemma_meeting_segments_intersect(a, b, pts[i], pts[j]);
    assert(edge_hit(pts, a, b, i));
    // the common point lies on the edge, and the edge lies in the box
    let min = box_of(pts).0;
    let max = box_of(pts).1;
    let (n1, n2, den) = choose|n1: int, n2: int, den: int|
        meet_at(a, b, pts[i], pts[j], n1, n2, den);
    lemma_box_holds_points(pts, i);
    lemma_box_holds_points(pts, j);
    lemma_part_way_in_range(den, n2, pts[i].x, pts[j].x, min.x, max.x);
    lemma_part_way_in_range(den, n2, pts[i].y, pts[j].y, min.y, max.y);
    lemma_part_way_in_range(den, n1, a.z, b.z, min.z, max.z);
    assert(part_way_inside(a, b, min, max, n1, den));
}

/// A segment of which no point lies in the bounding box of a shape does not
/// intersect the shape.
pub proof fn lemma_clear_segment_misses(pts: Seq<IntPoint>, a: IntPoint, b: IntPoint)
    requires
        !segment_meets_box(a, b, box_of(pts).0, box_of(pts).1),
    ensures
        !shape_intersects(pts, a, b),
{
}

/// For every collider: a segment that has a point in common with one of the
/// collider's edges, where the edge stands in the world and in the plane of
/// the segment, intersects the collider.
#[verifier::rlimit(40)]
pub proof fn lemma_collider_crossed_is_hit(
    collider: Collider,
    pos: Point,
    line_segment: (Point, Point),
    i: int,
)
    requires
        0 <= i < collider.spec_points().len(),
        level(
            line_segment.0@,
            line_segment.1@,
            world_points(collider.spec_points(), pos)[i],
            world_points(collider.spec_points(), pos)[(i + 1) % (
            collider.spec_points().len() as int)],
        ),
        segments_meet(
            line_segment.0@,
            line_segment.1@,
            world_points(collider.spec_points(), pos)[i],
            world_points(collider.spec_points(), pos)[(i + 1) % (
            collider.spec_points().len() as int)],
        ),
    ensures
        collider.spec_intersects(line_segment, pos),
{
    let pts = world_points(collider.spec_points(), pos);
    let a = line_segment.0@;
    let b = line_segment.1@;
    lemma_crossed_edge_intersects(pts, a, b, i);
    match collider {
        Collider::Point(c) => {
            let p = shifted(c.point@, pos@);
            assert(pts.len() == 1);
            assert(pts[0] == p);
            lemma_meeting_segments_intersect(a, b, p, p);
            assert(cross(a, b, a) == 0 && cross(a, b, b) == 0) by (nonlinear_arith)
                requires
                    cross(a, b, a) == (b.y - a.y) * (a.x - b.x) - (b.x - a.x) * (a.y - b.y),
                    cross(a, b, b) == (b.y - a.y) * (b.x - b.x) - (b.x - a.x) * (b.y - b.y),
            ;
            assert(in_span(p, p, a) ==> a == p);
            assert(in_span(p, p, b) ==> b == p);
        },
        _ => {},
    }
}

/// For every collider: a segment of which no point lies in the collider's
/// bounding box, where the collider stands, does not intersect the collider.
pub proof fn lemma_collider_clear_is_missed(
    collider: Collider,
    pos: Point,
    line_segment: (Point, Point),
)
    requires
        !segment_meets_box(
            line_segment.0@,
            line_segment.1@,
            box_of(world_points(collider.spec_points(), pos)).0,
            box_of(world_points(collider.spec_points(), pos)).1,
        ),
    ensures
        !collider.spec_intersects(line_segment, pos),
{
    let pts = world_points(collider.spec_points(), pos);
    match collider {
        Collider::Point(c) => {
            let p = shifted(c.point@, pos@);
            assert(pts.len() == 1);
            assert(pts[0] == p);
        },
        _ => {},
    }
}

} // verus!
