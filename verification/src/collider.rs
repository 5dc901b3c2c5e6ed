//! Points, the overlap and intersection tests on them, and the collider shapes.

use crate::clipping::{axis_ok, clip, in_range, nonempty, whole};
use crate::fixed::{half, half_of, neg_saturating, saturated};
use vstd::prelude::*;

verus! {

/// A point of space. Each coordinate counts thousandths of a unit.
#[derive(Clone, Copy, Debug, PartialEq, Eq, Structural)]
pub struct Point {
    pub x: i32,
    pub y: i32,
    pub z: i32,
}

/// The mathematical point that a `Point` stands for. A collider's points are
/// moved to its entity's position here, where no sum overflows.
pub struct IntPoint {
    pub x: int,
    pub y: int,
    pub z: int,
}

impl View for Point {
    type V = IntPoint;

    open spec fn view(&self) -> IntPoint {
        IntPoint { x: self.x as int, y: self.y as int, z: self.z as int }
    }
}

/// The point `p` moved by `t`.
pub open spec fn shifted(p: IntPoint, t: IntPoint) -> IntPoint {
    IntPoint { x: p.x + t.x, y: p.y + t.y, z: p.z + t.z }
}

pub open spec fn int_min(a: int, b: int) -> int {
    if a <= b { a } else { b }
}

pub open spec fn int_max(a: int, b: int) -> int {
    if a >= b { a } else { b }
}

/// The cross product of `q - p` and `r - q`, seen along the z axis. It is
/// positive where `p`, `q`, `r` turn clockwise, negative where they turn
/// counterclockwise and zero where they lie on one line.
pub open spec fn cross(p: IntPoint, q: IntPoint, r: IntPoint) -> int {
    (q.y - p.y) * (r.x - q.x) - (q.x - p.x) * (r.y - q.y)
}

pub open spec fn sign(v: int) -> int {
    if v > 0 { 1 } else if v < 0 { -1 } else { 0 }
}

/// The turn that `p`, `q`, `r` make: `1`, `-1` or `0`, the sign of `cross`.
/// Coordinates are whole numbers, so three points are on one line exactly where
/// the cross product is zero.
pub open spec fn orientation_of(p: IntPoint, q: IntPoint, r: IntPoint) -> int {
    sign(cross(p, q, r))
}

/// `r` lies in the box that `p` and `q` span, on all three axes.
pub open spec fn in_span(p: IntPoint, q: IntPoint, r: IntPoint) -> bool {
    &&& int_min(p.x, q.x) <= r.x <= int_max(p.x, q.x)
    &&& int_min(p.y, q.y) <= r.y <= int_max(p.y, q.y)
    &&& int_min(p.z, q.z) <= r.z <= int_max(p.z, q.z)
}

/// The orientation test for the segments `p1 p2` and `p3 p4`: either each
/// segment has its ends on different sides of the other's line, or an end of
/// one lies on the other's line within its span.
pub open spec fn segments_intersect(p1: IntPoint, p2: IntPoint, p3: IntPoint, p4: IntPoint) -> bool {
    let o1 = orientation_of(p1, p2, p3);
    let o2 = orientation_of(p1, p2, p4);
    let o3 = orientation_of(p3, p4, p1);
    let o4 = orientation_of(p3, p4, p2);
    ||| (o1 != o2 && o3 != o4)
    ||| (o1 == 0 && in_span(p1, p2, p3))
    ||| (o2 == 0 && in_span(p1, p2, p4))
    ||| (o3 == 0 && in_span(p3, p4, p1))
    ||| (o4 == 0 && in_span(p3, p4, p2))
}

/// `p` lies on the segment `p1 p2`: within its span and on its line.
pub open spec fn on_line_segment(p1: IntPoint, p2: IntPoint, p: IntPoint) -> bool {
    in_span(p1, p2, p) && orientation_of(p1, p2, p) == 0
}

/// `point` lies in the box from `min` to `max`, its faces included.
pub open spec fn inside_box(point: IntPoint, min: IntPoint, max: IntPoint) -> bool {
    &&& min.x <= point.x <= max.x
    &&& min.y <= point.y <= max.y
    &&& min.z <= point.z <= max.z
}

/// The boxes `a` and `b`, each given by its least and greatest corner, share a
/// point. Boxes that only touch do.
pub open spec fn boxes_overlap(a: (IntPoint, IntPoint), b: (IntPoint, IntPoint)) -> bool {
    &&& a.0.x <= b.1.x && b.0.x <= a.1.x
    &&& a.0.y <= b.1.y && b.0.y <= a.1.y
    &&& a.0.z <= b.1.z && b.0.z <= a.1.z
}

/// The point `n / den` of the way from `a` to `b` lies in the box from `min`
/// to `max`, its faces included.
pub open spec fn part_way_inside(
    a: IntPoint,
    b: IntPoint,
    min: IntPoint,
    max: IntPoint,
    n: int,
    den: int,
) -> bool {
    &&& axis_ok(a.x, b.x, min.x, max.x, n, den)
    &&& axis_ok(a.y, b.y, min.y, max.y, n, den)
    &&& axis_ok(a.z, b.z, min.z, max.z, n, den)
}

/// A point of the segment `a b` lies in the box from `min` to `max`. The
/// point is named by how far along the segment it lies.
pub open spec fn segment_meets_box(a: IntPoint, b: IntPoint, min: IntPoint, max: IntPoint) -> bool {
    exists|n: int, den: int|
        den > 0 && 0 <= n <= den && #[trigger] part_way_inside(a, b, min, max, n, den)
}

/// A coordinate of a point that was moved once: the sum of two `i32`.
pub open spec fn wide(v: int) -> bool {
    -0x1_0000_0000 <= v <= 0x1_0000_0000
}

/// A point in 64-bit coordinates: where a collider's point is after it was
/// moved to its entity's position.
#[derive(Clone, Copy)]
struct WidePoint {
    x: i64,
    y: i64,
    z: i64,
}

impl View for WidePoint {
    type V = IntPoint;

    closed spec fn view(&self) -> IntPoint {
        IntPoint { x: self.x as int, y: self.y as int, z: self.z as int }
    }
}

impl WidePoint {
    spec fn fits(&self) -> bool {
        wide(self.x as int) && wide(self.y as int) && wide(self.z as int)
    }

    fn of(p: &Point) -> (w: WidePoint)
        ensures
            w@ == p@,
            w.fits(),
    {
        WidePoint { x: p.x as i64, y: p.y as i64, z: p.z as i64 }
    }

    fn moved(p: &Point, t: &Point) -> (w: WidePoint)
        ensures
            w@ == shifted(p@, t@),
            w.fits(),
    {
        WidePoint {
            x: p.x as i64 + t.x as i64,
            y: p.y as i64 + t.y as i64,
            z: p.z as i64 + t.z as i64,
        }
    }
}

#[verifier::rlimit(40)]
proof fn lemma_product_bound(a: int, b: int)
    requires
        -0x2_0000_0000 <= a <= 0x2_0000_0000,
        -0x2_0000_0000 <= b <= 0x2_0000_0000,
    ensures
        -0x4_0000_0000_0000_0000 <= a * b <= 0x4_0000_0000_0000_0000,
{
    assert(-0x4_0000_0000_0000_0000 <= a * b <= 0x4_0000_0000_0000_0000) by (nonlinear_arith)
        requires
            -0x2_0000_0000 <= a <= 0x2_0000_0000,
            -0x2_0000_0000 <= b <= 0x2_0000_0000,
    ;
}

fn wide_orientation(p: &WidePoint, q: &WidePoint, r: &WidePoint) -> (o: i32)
    requires
        p.fits(),
        q.fits(),
        r.fits(),
    ensures
        o == orientation_of(p@, q@, r@),
{
    let a: i128 = (q.y - p.y) as i128;
    let b: i128 = (r.x - q.x) as i128;
    let c: i128 = (q.x - p.x) as i128;
    let d: i128 = (r.y - q.y) as i128;
    proof {
        lemma_product_bound(a as int, b as int);
        lemma_product_bound(c as int, d as int);
    }
    let val: i128 = a * b - c * d;
    if val > 0 {
        1
    } else if val < 0 {
        -1
    } else {
        0
    }
}

fn between(a: i64, b: i64, v: i64) -> (r: bool)
    ensures
        r == (int_min(a as int, b as int) <= v <= int_max(a as int, b as int)),
{
    let lo: i64 = if a <= b { a } else { b };
    let hi: i64 = if a >= b { a } else { b };
    lo <= v && v <= hi
}

fn wide_on_segment(p: &WidePoint, q: &WidePoint, r: &WidePoint) -> (b: bool)
    ensures
        b == in_span(p@, q@, r@),
{
    between(p.x, q.x, r.x) && between(p.y, q.y, r.y) && between(p.z, q.z, r.z)
}

fn wide_segments_intersect(p1: &WidePoint, p2: &WidePoint, p3: &WidePoint, p4: &WidePoint) -> (b:
    bool)
    requires
        p1.fits(),
        p2.fits(),
        p3.fits(),
        p4.fits(),
    ensures
        b == segments_intersect(p1@, p2@, p3@, p4@),
{
    let o1: i32 = wide_orientation(p1, p2, p3);
    let o2: i32 = wide_orientation(p1, p2, p4);
    let o3: i32 = wide_orientation(p3, p4, p1);
    let o4: i32 = wide_orientation(p3, p4, p2);
    if o1 != o2 && o3 != o4 {
        return true;
    }
    if o1 == 0 && wide_on_segment(p1, p2, p3) {
        return true;
    }
    if o2 == 0 && wide_on_segment(p1, p2, p4) {
        return true;
    }
    if o3 == 0 && wide_on_segment(p3, p4, p1) {
        return true;
    }
    if o4 == 0 && wide_on_segment(p3, p4, p2) {
        return true;
    }
    false
}

fn wide_inside_box(point: &WidePoint, min: &WidePoint, max: &WidePoint) -> (b: bool)
    ensures
        b == inside_box(point@, min@, max@),
{
    point.x >= min.x && point.x <= max.x && point.y >= min.y && point.y <= max.y && point.z
        >= min.z && point.z <= max.z
}

fn wide_segment_meets_box(a: &WidePoint, b: &WidePoint, min: &WidePoint, max: &WidePoint) -> (r:
    bool)
    requires
        a.fits(),
        b.fits(),
        min.fits(),
        max.fits(),
    ensures
        r == segment_meets_box(a@, b@, min@, max@),
{
    let all = whole();
    let along_x = match clip(a.x, b.x, min.x, max.x, all) {
        Some(r) => r,
        None => {
            assert forall|n: int, den: int| den > 0 && 0 <= n <= den implies !#[trigger] part_way_inside(
                a@,
                b@,
                min@,
                max@,
                n,
                den,
            ) by {
                assert(!axis_ok(a@.x, b@.x, min@.x, max@.x, n, den));
            }
            return false;
        },
    };
    let along_y = match clip(a.y, b.y, min.y, max.y, along_x) {
        Some(r) => r,
        None => {
            assert forall|n: int, den: int| den > 0 && 0 <= n <= den implies !#[trigger] part_way_inside(
                a@,
                b@,
                min@,
                max@,
                n,
                den,
            ) by {
                assert(!axis_ok(a@.y, b@.y, min@.y, max@.y, n, den));
            }
            return false;
        },
    };
    let along_z = match clip(a.z, b.z, min.z, max.z, along_y) {
        Some(r) => r,
        None => {
            assert forall|n: int, den: int| den > 0 && 0 <= n <= den implies !#[trigger] part_way_inside(
                a@,
                b@,
                min@,
                max@,
                n,
                den,
            ) by {
                assert(!axis_ok(a@.z, b@.z, min@.z, max@.z, n, den));
            }
            return false;
        },
    };
    let r = nonempty(along_z);
    proof {
        if r {
            let (n, den) = choose|n: int, den: int| den > 0 && #[trigger] in_range(n, den, along_z);
            assert(in_range(n, den, along_y));
            assert(in_range(n, den, along_x));
            assert(in_range(n, den, all));
            assert(part_way_inside(a@, b@, min@, max@, n, den));
        }
        if segment_meets_box(a@, b@, min@, max@) {
            let (n, den) = choose|n: int, den: int|
                den > 0 && 0 <= n <= den && #[trigger] part_way_inside(a@, b@, min@, max@, n, den);
            assert(in_range(n, den, all));
            assert(in_range(n, den, along_x));
            assert(in_range(n, den, along_y));
            assert(in_range(n, den, along_z));
        }
    }
    r
}

/// Whether a point of the segment `p1 p2` lies in the box from `min` to
/// `max`, its faces included.
pub fn segment_meets_aabb(p1: &Point, p2: &Point, min: &Point, max: &Point) -> (b: bool)
    ensures
        b == segment_meets_box(p1@, p2@, min@, max@),
{
    wide_segment_meets_box(
        &WidePoint::of(p1),
        &WidePoint::of(p2),
        &WidePoint::of(min),
        &WidePoint::of(max),
    )
}

/// The turn that `p`, `q`, `r` make, seen along the z axis: `1` clockwise, `-1`
/// counterclockwise, `0` on one line.
pub fn orientation(p: &Point, q: &Point, r: &Point) -> (o: i32)
    ensures
        o == orientation_of(p@, q@, r@),
{
    wide_orientation(&WidePoint::of(p), &WidePoint::of(q), &WidePoint::of(r))
}

/// Whether `r` lies in the box that `p` and `q` span.
pub fn on_segment(p: &Point, q: &Point, r: &Point) -> (b: bool)
    ensures
        b == in_span(p@, q@, r@),
{
    wide_on_segment(&WidePoint::of(p), &WidePoint::of(q), &WidePoint::of(r))
}

/// Whether the segments `p1 p2` and `p3 p4` intersect, by the orientation test.
pub fn line_segment_intersects(p1: &Point, p2: &Point, p3: &Point, p4: &Point) -> (b: bool)
    ensures
        b == segments_intersect(p1@, p2@, p3@, p4@),
{
    wide_segments_intersect(
        &WidePoint::of(p1),
        &WidePoint::of(p2),
        &WidePoint::of(p3),
        &WidePoint::of(p4),
    )
}

/// Whether `p` lies on the segment `p1 p2`.
pub fn point_on_line_segment(p1: &Point, p2: &Point, p: &Point) -> (b: bool)
    ensures
        b == on_line_segment(p1@, p2@, p@),
{
    on_segment(p1, p2, p) && orientation(p1, p2, p) == 0
}

/// Whether `point` lies in the box from `min` to `max`, its faces included.
pub fn point_inside_aabb(point: &Point, min: &Point, max: &Point) -> (b: bool)
    ensures
        b == inside_box(point@, min@, max@),
{
    wide_inside_box(&WidePoint::of(point), &WidePoint::of(min), &WidePoint::of(max))
}

/// Whether two boxes, each given by its least and greatest corner, overlap.
/// Boxes that share only a face, an edge or a corner overlap.
pub fn aabb_collision(aabb1: &(Point, Point), aabb2: &(Point, Point)) -> (b: bool)
    ensures
        b == boxes_overlap((aabb1.0@, aabb1.1@), (aabb2.0@, aabb2.1@)),
{
    !(aabb1.1.x < aabb2.0.x || aabb1.0.x > aabb2.1.x || aabb1.1.y < aabb2.0.y || aabb1.0.y
        > aabb2.1.y || aabb1.1.z < aabb2.0.z || aabb1.0.z > aabb2.1.z)
}

/// The points of a shape, each moved by `pos`.
pub open spec fn world_points(points: Seq<Point>, pos: Point) -> Seq<IntPoint> {
    Seq::new(points.len(), |i: int| shifted(points[i]@, pos@))
}

/// The points of a shape where they are given: in the shape's own space.
pub open spec fn local_points(points: Seq<Point>) -> Seq<IntPoint> {
    Seq::new(points.len(), |i: int| points[i]@)
}

/// The least and the greatest corner of the smallest box, with sides along the
/// axes, that holds every point of `pts`. `pts` is not empty.
pub open spec fn box_of(pts: Seq<IntPoint>) -> (IntPoint, IntPoint)
    decreases pts.len(),
{
    if pts.len() <= 1 {
        (pts[0], pts[0])
    } else {
        let b = box_of(pts.drop_last());
        let p = pts.last();
        (
            IntPoint { x: int_min(b.0.x, p.x), y: int_min(b.0.y, p.y), z: int_min(b.0.z, p.z) },
            IntPoint { x: int_max(b.1.x, p.x), y: int_max(b.1.y, p.y), z: int_max(b.1.z, p.z) },
        )
    }
}

/// The segment `a b` meets the edge that leaves the `i`-th point of `pts`. The
/// edge after the last point leads back to the first.
pub open spec fn edge_hit(pts: Seq<IntPoint>, a: IntPoint, b: IntPoint, i: int) -> bool {
    segments_intersect(a, b, pts[i], pts[(i + 1) % (pts.len() as int)])
}

/// The segment `a b` meets an edge of the shape `pts`.
pub open spec fn crosses_edge(pts: Seq<IntPoint>, a: IntPoint, b: IntPoint) -> bool {
    exists|i: int| 0 <= i < pts.len() && edge_hit(pts, a, b, i)
}

/// `point` lies in the bounding box of the shape `pts`.
pub open spec fn covers_point(pts: Seq<IntPoint>, point: IntPoint) -> bool {
    inside_box(point, box_of(pts).0, box_of(pts).1)
}

/// A point of the segment `a b` lies in the bounding box of the shape `pts`.
pub open spec fn reaches_box(pts: Seq<IntPoint>, a: IntPoint, b: IntPoint) -> bool {
    segment_meets_box(a, b, box_of(pts).0, box_of(pts).1)
}

/// The segment `a b` intersects the shape `pts`: it reaches the bounding box
/// of the shape, and it meets an edge of the shape, seen along the z axis, or
/// ends in the bounding box. A segment that lies wholly outside the bounding
/// box intersects nothing.
pub open spec fn shape_intersects(pts: Seq<IntPoint>, a: IntPoint, b: IntPoint) -> bool {
    reaches_box(pts, a, b) && (crosses_edge(pts, a, b) || covers_point(pts, a) || covers_point(
        pts,
        b,
    ))
}

/// The bounding boxes of two shapes overlap.
pub open spec fn shapes_collide(a: Seq<IntPoint>, b: Seq<IntPoint>) -> bool {
    boxes_overlap(box_of(a), box_of(b))
}

/// Every point of a shape lies in the shape's bounding box.
pub proof fn lemma_box_holds_points(pts: Seq<IntPoint>, i: int)
    requires
        0 <= i < pts.len(),
    ensures
        inside_box(pts[i], box_of(pts).0, box_of(pts).1),
    decreases pts.len(),
{
    if pts.len() > 1 && i < pts.len() - 1 {
        lemma_box_holds_points(pts.drop_last(), i);
    }
}

/// Each face of the bounding box touches a point of the shape.
pub proof fn lemma_box_is_tight(pts: Seq<IntPoint>)
    requires
        pts.len() > 0,
    ensures
        exists|i: int| 0 <= i < pts.len() && pts[i].x == box_of(pts).0.x,
        exists|i: int| 0 <= i < pts.len() && pts[i].y == box_of(pts).0.y,
        exists|i: int| 0 <= i < pts.len() && pts[i].z == box_of(pts).0.z,
        exists|i: int| 0 <= i < pts.len() && pts[i].x == box_of(pts).1.x,
        exists|i: int| 0 <= i < pts.len() && pts[i].y == box_of(pts).1.y,
        exists|i: int| 0 <= i < pts.len() && pts[i].z == box_of(pts).1.z,
    decreases pts.len(),
{
    if pts.len() > 1 {
        let rest = pts.drop_last();
        lemma_box_is_tight(rest);
        let last = pts.len() - 1;
        let ax = choose|i: int| 0 <= i < rest.len() && rest[i].x == box_of(rest).0.x;
        let ay = choose|i: int| 0 <= i < rest.len() && rest[i].y == box_of(rest).0.y;
        let az = choose|i: int| 0 <= i < rest.len() && rest[i].z == box_of(rest).0.z;
        let bx = choose|i: int| 0 <= i < rest.len() && rest[i].x == box_of(rest).1.x;
        let by = choose|i: int| 0 <= i < rest.len() && rest[i].y == box_of(rest).1.y;
        let bz = choose|i: int| 0 <= i < rest.len() && rest[i].z == box_of(rest).1.z;
        let cx = if pts[last].x <= box_of(rest).0.x { last } else { ax };
        let cy = if pts[last].y <= box_of(rest).0.y { last } else { ay };
        let cz = if pts[last].z <= box_of(rest).0.z { last } else { az };
        let dx = if pts[last].x >= box_of(rest).1.x { last } else { bx };
        let dy = if pts[last].y >= box_of(rest).1.y { last } else { by };
        let dz = if pts[last].z >= box_of(rest).1.z { last } else { bz };
        assert(pts[cx].x == box_of(pts).0.x);
        assert(pts[cy].y == box_of(pts).0.y);
        assert(pts[cz].z == box_of(pts).0.z);
        assert(pts[dx].x == box_of(pts).1.x);
        assert(pts[dy].y == box_of(pts).1.y);
        assert(pts[dz].z == box_of(pts).1.z);
    } else {
        assert(pts[0].x == box_of(pts).0.x);
    }
}

/// Moving a shape moves its bounding box with it.
pub proof fn lemma_box_moves_with_points(points: Seq<Point>, pos: Point)
    requires
        points.len() > 0,
    ensures
        box_of(world_points(points, pos)).0 == shifted(box_of(local_points(points)).0, pos@),
        box_of(world_points(points, pos)).1 == shifted(box_of(local_points(points)).1, pos@),
    decreases points.len(),
{
    if points.len() > 1 {
        let rest = points.drop_last();
        lemma_box_moves_with_points(rest, pos);
        assert(world_points(points, pos).drop_last() =~= world_points(rest, pos));
        assert(local_points(points).drop_last() =~= local_points(rest));
    }
}

/// The bounding box of a shape, in the shape's own space.
pub fn calculate_aabb(points: &Vec<Point>) -> (aabb: (Point, Point))
    requires
        points.len() > 0,
    ensures
        (aabb.0@, aabb.1@) == box_of(local_points(points@)),
{
    let ghost all = local_points(points@);
    let mut min: Point = points[0];
    let mut max: Point = points[0];
    let mut i: usize = 1;
    assert(all.take(1) =~= seq![points@[0]@]);
    while i < points.len()
        invariant
            1 <= i <= points.len(),
            all == local_points(points@),
            (min@, max@) == box_of(all.take(i as int)),
        decreases points.len() - i,
    {
        let p: Point = points[i];
        proof {
            let t = all.take(i + 1);
            assert(t.drop_last() =~= all.take(i as int));
            assert(t.last() == p@);
        }
        if p.x < min.x {
            min.x = p.x;
        }
        if p.y < min.y {
            min.y = p.y;
        }
        if p.z < min.z {
            min.z = p.z;
        }
        if p.x > max.x {
            max.x = p.x;
        }
        if p.y > max.y {
            max.y = p.y;
        }
        if p.z > max.z {
            max.z = p.z;
        }
        i += 1;
    }
    assert(all.take(points.len() as int) =~= all);
    (min, max)
}

/// Whether a segment intersects the shape `points` standing at `current_pos`:
/// it reaches the shape's bounding box, and it meets one of the shape's edges
/// or one of its ends lies in the bounding box.
pub fn intersects(points: &Vec<Point>, line_segment: &(Point, Point), current_pos: &Point) -> (b:
    bool)
    requires
        points.len() > 0,
    ensures
        b == shape_intersects(
            world_points(points@, *current_pos),
            line_segment.0@,
            line_segment.1@,
        ),
{
    let ghost pts = world_points(points@, *current_pos);
    let a = WidePoint::of(&line_segment.0);
    let b = WidePoint::of(&line_segment.1);
    let bounds = calculate_aabb(points);
    proof {
        lemma_box_moves_with_points(points@, *current_pos);
    }
    let min = WidePoint::moved(&bounds.0, current_pos);
    let max = WidePoint::moved(&bounds.1, current_pos);
    if !wide_segment_meets_box(&a, &b, &min, &max) {
        return false;
    }
    let n: usize = points.len();
    let mut i: usize = 0;
    while i < n
        invariant
            0 <= i <= n,
            n == points.len(),
            pts == world_points(points@, *current_pos),
            a@ == line_segment.0@,
            b@ == line_segment.1@,
            a.fits(),
            b.fits(),
            reaches_box(pts, a@, b@),
            forall|j: int| 0 <= j < i ==> !edge_hit(pts, a@, b@, j),
        decreases n - i,
    {
        let p1 = WidePoint::moved(&points[i], current_pos);
        let p2 = WidePoint::moved(&points[(i + 1) % n], current_pos);
        if wide_segments_intersect(&a, &b, &p1, &p2) {
            assert(edge_hit(pts, a@, b@, i as int));
            return true;
        }
        i += 1;
    }
    colliding_point(points, current_pos, &line_segment.0) || colliding_point(
        points,
        current_pos,
        &line_segment.1,
    )
}

/// Whether the bounding boxes of two shapes, each standing at its position,
/// overlap.
pub fn colliding_with(
    points: &Vec<Point>,
    current_pos: &Point,
    other_points: &Vec<Point>,
    other_pos: &Point,
) -> (b: bool)
    requires
        points.len() > 0,
        other_points.len() > 0,
    ensures
        b == shapes_collide(
            world_points(points@, *current_pos),
            world_points(other_points@, *other_pos),
        ),
{
    let own = calculate_aabb(points);
    let other = calculate_aabb(other_points);
    proof {
        lemma_box_moves_with_points(points@, *current_pos);
        lemma_box_moves_with_points(other_points@, *other_pos);
    }
    let a0 = WidePoint::moved(&own.0, current_pos);
    let a1 = WidePoint::moved(&own.1, current_pos);
    let b0 = WidePoint::moved(&other.0, other_pos);
    let b1 = WidePoint::moved(&other.1, other_pos);
    !(a1.x < b0.x || a0.x > b1.x || a1.y < b0.y || a0.y > b1.y || a1.z < b0.z || a0.z > b1.z)
}

/// Whether `point` lies in the bounding box of the shape `points` standing at
/// `current_pos`. For a shape of one point that is where the point is.
pub fn colliding_point(points: &Vec<Point>, current_pos: &Point, point: &Point) -> (b: bool)
    requires
        points.len() > 0,
    ensures
        b == covers_point(world_points(points@, *current_pos), point@),
{
    let bounds = calculate_aabb(points);
    proof {
        lemma_box_moves_with_points(points@, *current_pos);
    }
    let min = WidePoint::moved(&bounds.0, current_pos);
    let max = WidePoint::moved(&bounds.1, current_pos);
    let p = WidePoint::of(point);
    wide_inside_box(&p, &min, &max)
}

/// An axis of space.
#[derive(Clone, Copy, Debug, PartialEq, Eq, Structural)]
pub enum Axis {
    X,
    Y,
    Z,
}

/// The coordinate of a point along an axis.
pub open spec fn along(p: IntPoint, axis: Axis) -> int {
    match axis {
        Axis::X => p.x,
        Axis::Y => p.y,
        Axis::Z => p.z,
    }
}

/// The shadow of a shape on an axis: the least and the greatest coordinate of
/// its points along the axis.
pub open spec fn shadow(pts: Seq<IntPoint>, axis: Axis) -> (int, int) {
    (along(box_of(pts).0, axis), along(box_of(pts).1, axis))
}

/// The shadows of two shapes overlap on each of the three axes. No axis but
/// these three is tried, so this is the overlap of the bounding boxes.
pub open spec fn shadows_overlap(a: Seq<IntPoint>, b: Seq<IntPoint>) -> bool {
    forall|axis: Axis|
        (#[trigger] shadow(a, axis)).0 <= shadow(b, axis).1 && shadow(b, axis).0 <= shadow(
            a,
            axis,
        ).1
}

/// Two shapes are apart along one of the three axes just when their bounding
/// boxes do not overlap.
pub proof fn lemma_shadows_are_boxes(a: Seq<IntPoint>, b: Seq<IntPoint>)
    ensures
        shadows_overlap(a, b) == shapes_collide(a, b),
{
    if shapes_collide(a, b) {
        assert forall|axis: Axis|
            (#[trigger] shadow(a, axis)).0 <= shadow(b, axis).1 && shadow(b, axis).0 <= shadow(
                a,
                axis,
            ).1 by {
            match axis {
                Axis::X => {},
                Axis::Y => {},
                Axis::Z => {},
            }
        }
    }
    if shadows_overlap(a, b) {
        assert(shadow(a, Axis::X).0 <= shadow(b, Axis::X).1);
        assert(shadow(a, Axis::Y).0 <= shadow(b, Axis::Y).1);
        assert(shadow(a, Axis::Z).0 <= shadow(b, Axis::Z).1);
    }
}

/// The shadow on an axis of the shape `points` standing at `current_pos`.
pub fn project_onto_axis(points: &Vec<Point>, current_pos: &Point, axis: Axis) -> (r: (i64, i64))
    requires
        points.len() > 0,
    ensures
        (r.0 as int, r.1 as int) == shadow(world_points(points@, *current_pos), axis),
{
    let bounds = calculate_aabb(points);
    proof {
        lemma_box_moves_with_points(points@, *current_pos);
    }
    let min = WidePoint::moved(&bounds.0, current_pos);
    let max = WidePoint::moved(&bounds.1, current_pos);
    match axis {
        Axis::X => (min.x, max.x),
        Axis::Y => (min.y, max.y),
        Axis::Z => (min.z, max.z),
    }
}

/// Whether no one of the three axes tells two shapes apart: whether their
/// shadows overlap on the x, the y and the z axis. Shadows that only touch
/// overlap.
pub fn sat_overlap(
    points: &Vec<Point>,
    current_pos: &Point,
    other_points: &Vec<Point>,
    other_pos: &Point,
) -> (b: bool)
    requires
        points.len() > 0,
        other_points.len() > 0,
    ensures
        b == shadows_overlap(
            world_points(points@, *current_pos),
            world_points(other_points@, *other_pos),
        ),
        b == shapes_collide(
            world_points(points@, *current_pos),
            world_points(other_points@, *other_pos),
        ),
{
    let ghost a = world_points(points@, *current_pos);
    let ghost b = world_points(other_points@, *other_pos);
    proof {
        lemma_shadows_are_boxes(a, b);
    }
    let ax = project_onto_axis(points, current_pos, Axis::X);
    let bx = project_onto_axis(other_points, other_pos, Axis::X);
    if ax.0 > bx.1 || bx.0 > ax.1 {
        return false;
    }
    let ay = project_onto_axis(points, current_pos, Axis::Y);
    let by = project_onto_axis(other_points, other_pos, Axis::Y);
    if ay.0 > by.1 || by.0 > ay.1 {
        return false;
    }
    let az = project_onto_axis(points, current_pos, Axis::Z);
    let bz = project_onto_axis(other_points, other_pos, Axis::Z);
    !(az.0 > bz.1 || bz.0 > az.1)
}

/// The eight corners of the box that reaches `hx`, `hy` and `hz` from its
/// centre: the back face first, each face counterclockwise from its least
/// corner.
pub open spec fn box_corners(hx: int, hy: int, hz: int) -> Seq<Point> {
    seq![
        Point { x: (-hx) as i32, y: (-hy) as i32, z: (-hz) as i32 },
        Point { x: hx as i32, y: (-hy) as i32, z: (-hz) as i32 },
        Point { x: hx as i32, y: hy as i32, z: (-hz) as i32 },
        Point { x: (-hx) as i32, y: hy as i32, z: (-hz) as i32 },
        Point { x: (-hx) as i32, y: (-hy) as i32, z: hz as i32 },
        Point { x: hx as i32, y: (-hy) as i32, z: hz as i32 },
        Point { x: hx as i32, y: hy as i32, z: hz as i32 },
        Point { x: (-hx) as i32, y: hy as i32, z: hz as i32 },
    ]
}

fn corners(hx: i32, hy: i32, hz: i32) -> (r: Vec<Point>)
    requires
        hx > i32::MIN,
        hy > i32::MIN,
        hz > i32::MIN,
    ensures
        r@ == box_corners(hx as int, hy as int, hz as int),
{
    let nx: i32 = -hx;
    let ny: i32 = -hy;
    let nz: i32 = -hz;
    let r = vec![
        Point { x: nx, y: ny, z: nz },
        Point { x: hx, y: ny, z: nz },
        Point { x: hx, y: hy, z: nz },
        Point { x: nx, y: hy, z: nz },
        Point { x: nx, y: ny, z: hz },
        Point { x: hx, y: ny, z: hz },
        Point { x: hx, y: hy, z: hz },
        Point { x: nx, y: hy, z: hz },
    ];
    assert(r@ =~= box_corners(hx as int, hy as int, hz as int));
    r
}

/// `d` is how far the diagonal corners of an octagon of the given size lie
/// from each axis: the size divided by the square root of two, rounded down.
pub open spec fn is_reach(size: int, d: int) -> bool {
    0 <= d && 2 * (d * d) <= size * size < 2 * ((d + 1) * (d + 1))
}

/// The reach of an octagon's diagonal corners, with the sign of the size.
pub open spec fn octagon_reach(size: int) -> int {
    let d = choose|d: int| is_reach(size, d);
    if size >= 0 {
        d
    } else {
        -d
    }
}

/// A size has one reach only.
#[verifier::rlimit(40)]
pub proof fn lemma_reach_unique(size: int, d1: int, d2: int)
    requires
        is_reach(size, d1),
        is_reach(size, d2),
    ensures
        d1 == d2,
{
    assert(d1 < d2 + 1) by (nonlinear_arith)
        requires
            0 <= d1,
            0 <= d2,
            2 * (d1 * d1) <= size * size,
            size * size < 2 * ((d2 + 1) * (d2 + 1)),
    ;
    assert(d2 < d1 + 1) by (nonlinear_arith)
        requires
            0 <= d1,
            0 <= d2,
            2 * (d2 * d2) <= size * size,
            size * size < 2 * ((d1 + 1) * (d1 + 1)),
    ;
}

#[verifier::rlimit(40)]
fn reach(size: i32) -> (r: i32)
    ensures
        r == octagon_reach(size as int),
        -0x8000_0000 < r,
{
    let s: i128 = if size >= 0 { size as i128 } else { -(size as i128) };
    assert(0 <= s * s <= 0x4000_0000_0000_0000) by (nonlinear_arith)
        requires
            0 <= s <= 0x8000_0000,
    ;
    let t: i128 = s * s;
    let mut lo: i128 = 0;
    let mut hi: i128 = s + 1;
    assert(2 * (lo * lo) <= t < 2 * (hi * hi)) by (nonlinear_arith)
        requires
            lo == 0,
            hi == s + 1,
            t == s * s,
            s >= 0,
    ;
    while hi - lo > 1
        invariant
            0 <= lo < hi <= s + 1,
            0 <= s <= 0x8000_0000,
            t == s * s,
            2 * (lo * lo) <= t < 2 * (hi * hi),
        decreases hi - lo,
    {
        let mid: i128 = lo + (hi - lo) / 2;
        assert(0 <= mid * mid <= 0x4000_0000_0000_0000) by (nonlinear_arith)
            requires
                0 <= mid <= 0x8000_0000,
        ;
        let square: i128 = mid * mid;
        if 2 * square <= t {
            lo = mid;
        } else {
            hi = mid;
        }
    }
    assert(lo < 0x8000_0000) by (nonlinear_arith)
        requires
            0 <= lo,
            2 * (lo * lo) <= t,
            0 <= s <= 0x8000_0000,
            t == s * s,
    {
        assert(s * s <= 0x4000_0000_0000_0000);
        if lo >= 0x8000_0000 {
            assert(lo * lo >= 0x4000_0000_0000_0000);
        }
    }
    proof {
        assert(s * s == (size as int) * (size as int)) by (nonlinear_arith)
            requires
                s == size || s == -size,
        ;
        assert(is_reach(size as int, lo as int));
        let d = choose|d: int| is_reach(size as int, d);
        lemma_reach_unique(size as int, lo as int, d);
    }
    if size >= 0 {
        lo as i32
    } else {
        (-lo) as i32
    }
}

/// The eight corners of an octagon in the plane `z = 0`, counterclockwise from
/// the corner on the positive x axis.
pub open spec fn octagon_corners(size: int) -> Seq<Point> {
    let s = size as i32;
    let n = saturated(-size) as i32;
    let d = octagon_reach(size) as i32;
    let e = (-octagon_reach(size)) as i32;
    seq![
        Point { x: s, y: 0, z: 0 },
        Point { x: d, y: d, z: 0 },
        Point { x: 0, y: s, z: 0 },
        Point { x: e, y: d, z: 0 },
        Point { x: n, y: 0, z: 0 },
        Point { x: e, y: e, z: 0 },
        Point { x: 0, y: n, z: 0 },
        Point { x: d, y: e, z: 0 },
    ]
}

/// A cube about its entity's position.
#[derive(Clone, Copy, Debug, PartialEq, Eq, Structural)]
pub struct CubeCollider {
    pub side_length: i32,
}

/// A box about its entity's position.
#[derive(Clone, Copy, Debug, PartialEq, Eq, Structural)]
pub struct RectangularPrismCollider {
    pub width: i32,
    pub height: i32,
    pub depth: i32,
}

/// A single point, given from its entity's position.
#[derive(Clone, Copy, Debug, PartialEq, Eq, Structural)]
pub struct PointCollider {
    pub point: Point,
}

/// A flat octagon about its entity's position.
#[derive(Clone, Copy, Debug, PartialEq, Eq, Structural)]
pub struct OctagonCollider {
    pub size: i32,
}

/// The shapes an entity can collide with. The set is closed: a saved world
/// names each collider by its variant.
#[derive(Clone, Copy, Debug, PartialEq, Eq, Structural)]
pub enum Collider {
    Cube(CubeCollider),
    RectangularPrism(RectangularPrismCollider),
    Point(PointCollider),
    Octagon(OctagonCollider),
}

impl CubeCollider {
    pub fn new(side_length: i32) -> (c: Collider)
        ensures
            c == Collider::Cube(CubeCollider { side_length }),
    {
        Collider::Cube(CubeCollider { side_length })
    }
}

impl RectangularPrismCollider {
    pub fn new(width: i32, height: i32, depth: i32) -> (c: Collider)
        ensures
            c == Collider::RectangularPrism(RectangularPrismCollider { width, height, depth }),
    {
        Collider::RectangularPrism(RectangularPrismCollider { width, height, depth })
    }
}

impl PointCollider {
    pub fn new(point: Point) -> (c: Collider)
        ensures
            c == Collider::Point(PointCollider { point }),
    {
        Collider::Point(PointCollider { point })
    }
}

impl OctagonCollider {
    pub fn new(size: i32) -> (c: Collider)
        ensures
            c == Collider::Octagon(OctagonCollider { size }),
    {
        Collider::Octagon(OctagonCollider { size })
    }
}

impl Collider {
    /// The points of the shape in its own space.
    pub open spec fn spec_points(&self) -> Seq<Point> {
        match *self {
            Collider::Cube(c) => {
                let h = half_of(c.side_length as int);
                box_corners(h, h, h)
            },
            Collider::RectangularPrism(c) => box_corners(
                half_of(c.width as int),
                half_of(c.height as int),
                half_of(c.depth as int),
            ),
            Collider::Point(c) => seq![c.point],
            Collider::Octagon(c) => octagon_corners(c.size as int),
        }
    }

    /// Whether a segment intersects the collider standing at `pos`. A point
    /// collider is met where the segment passes through it; every other shape
    /// where the segment reaches the bounding box and meets an edge or ends
    /// in the box.
    pub open spec fn spec_intersects(&self, line_segment: (Point, Point), pos: Point) -> bool {
        match *self {
            Collider::Point(c) => segment_meets_box(
                line_segment.0@,
                line_segment.1@,
                shifted(c.point@, pos@),
                shifted(c.point@, pos@),
            ) && on_line_segment(line_segment.0@, line_segment.1@, shifted(c.point@, pos@)),
            _ => shape_intersects(
                world_points(self.spec_points(), pos),
                line_segment.0@,
                line_segment.1@,
            ),
        }
    }

    /// The points of the shape in its own space.
    pub fn points(&self) -> (r: Vec<Point>)
        ensures
            r@ == self.spec_points(),
            r@.len() > 0,
    {
        match self {
            Collider::Cube(c) => {
                let h: i32 = half(c.side_length);
                corners(h, h, h)
            },
            Collider::RectangularPrism(c) => corners(half(c.width), half(c.height), half(c.depth)),
            Collider::Point(c) => {
                let r = vec![c.point];
                assert(r@ =~= seq![c.point]);
                r
            },
            Collider::Octagon(c) => {
                let s: i32 = c.size;
                let n: i32 = neg_saturating(s);
                let d: i32 = reach(s);
                let e: i32 = -d;
                let r = vec![
                    Point { x: s, y: 0, z: 0 },
                    Point { x: d, y: d, z: 0 },
                    Point { x: 0, y: s, z: 0 },
                    Point { x: e, y: d, z: 0 },
                    Point { x: n, y: 0, z: 0 },
                    Point { x: e, y: e, z: 0 },
                    Point { x: 0, y: n, z: 0 },
                    Point { x: d, y: e, z: 0 },
                ];
                assert(r@ =~= octagon_corners(c.size as int));
                r
            },
        }
    }

    /// Whether the segment meets the collider standing at `current_pos`.
    pub fn intersects(&self, line_segment: &(Point, Point), current_pos: &Point) -> (b: bool)
        ensures
            b == self.spec_intersects(*line_segment, *current_pos),
    {
        match self {
            Collider::Point(c) => {
                let p = WidePoint::moved(&c.point, current_pos);
                let a = WidePoint::of(&line_segment.0);
                let b = WidePoint::of(&line_segment.1);
                wide_segment_meets_box(&a, &b, &p, &p) && wide_on_segment(&a, &b, &p)
                    && wide_orientation(&a, &b, &p) == 0
            },
            _ => {
                let points = self.points();
                intersects(&points, line_segment, current_pos)
            },
        }
    }

    /// Whether the bounding boxes of this collider at `current_pos` and of
    /// `other` at `other_pos` overlap.
    pub fn colliding_with(&self, current_pos: &Point, other: &Collider, other_pos: &Point) -> (b:
        bool)
        ensures
            b == shapes_collide(
                world_points(self.spec_points(), *current_pos),
                world_points(other.spec_points(), *other_pos),
            ),
    {
        let own = self.points();
        let theirs = other.points();
        colliding_with(&own, current_pos, &theirs, other_pos)
    }

    /// Whether `point` lies in the bounding box of the collider standing at
    /// `current_pos`.
    pub fn colliding_point(&self, current_pos: &Point, point: &Point) -> (b: bool)
        ensures
            b == covers_point(world_points(self.spec_points(), *current_pos), point@),
    {
        let own = self.points();
        colliding_point(&own, current_pos, point)
    }
}

} // verus!
