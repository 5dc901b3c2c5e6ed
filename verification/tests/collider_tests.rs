use oxidized::collider::{
    colliding_point, colliding_with, intersects, line_segment_intersects, project_onto_axis,
    sat_overlap, segment_meets_aabb, Axis, Collider, OctagonCollider, Point, PointCollider,
};

fn p(x: f64, y: f64, z: f64) -> Point {
    Point { x: (x * 1000.0) as i32, y: (y * 1000.0) as i32, z: (z * 1000.0) as i32 }
}

struct SimpleCollider {
    points: Vec<Point>,
}

impl SimpleCollider {
    fn new(points: Vec<Point>) -> Self {
        Self { points }
    }

    fn intersects(&self, line_segment: &(Point, Point), current_pos: &Point) -> bool {
        intersects(&self.points, line_segment, current_pos)
    }

    fn colliding_with(&self, current_pos: &Point, other: &SimpleCollider, other_pos: &Point) -> bool {
        colliding_with(&self.points, current_pos, &other.points, other_pos)
    }

    fn colliding_point(&self, current_pos: &Point, point: &Point) -> bool {
        colliding_point(&self.points, current_pos, point)
    }
}

fn square() -> Vec<Point> {
    vec![p(0.0, 0.0, 0.0), p(4.0, 0.0, 0.0), p(4.0, 4.0, 0.0), p(0.0, 4.0, 0.0)]
}

fn small_square() -> Vec<Point> {
    vec![p(1.0, 1.0, 0.0), p(2.0, 1.0, 0.0), p(2.0, 2.0, 0.0), p(1.0, 2.0, 0.0)]
}

#[test]
fn test_line_segment_intersects_true_case() {
    let p1 = p(1.0, 1.0, 0.0);
    let p2 = p(4.0, 4.0, 0.0);
    let p3 = p(1.0, 4.0, 0.0);
    let p4 = p(4.0, 1.0, 0.0);
    assert!(line_segment_intersects(&p1, &p2, &p3, &p4));
}

#[test]
fn test_line_segment_intersects_false_case() {
    let p1 = p(1.0, 1.0, 0.0);
    let p2 = p(2.0, 2.0, 0.0);
    let p3 = p(3.0, 3.0, 0.0);
    let p4 = p(4.0, 4.0, 0.0);
    assert!(!line_segment_intersects(&p1, &p2, &p3, &p4));
}

#[test]
fn test_line_segment_intersects_collinear_case() {
    let p1 = p(1.0, 1.0, 0.0);
    let p2 = p(5.0, 5.0, 0.0);
    let p3 = p(3.0, 3.0, 0.0);
    let p4 = p(7.0, 7.0, 0.0);
    assert!(line_segment_intersects(&p1, &p2, &p3, &p4));
}

#[test]
fn test_collider_intersects_vertical_line() {
    let square_collider = SimpleCollider::new(square());
    let line_segment = (p(2.0, -1.0, 0.0), p(2.0, 5.0, 0.0));
    assert!(square_collider.intersects(&line_segment, &p(0.0, 0.0, 0.0)));
}

#[test]
fn test_collider_intersects_outside_line() {
    let square_collider = SimpleCollider::new(square());
    let line_segment = (p(-1.0, -1.0, 0.0), p(-2.0, -2.0, 0.0));
    assert!(!square_collider.intersects(&line_segment, &p(0.0, 0.0, 0.0)));
}

#[test]
fn test_collider_intersects_horizontal_line() {
    let square_collider = SimpleCollider::new(square());
    let line_segment = (p(0.0, 2.0, 0.0), p(4.0, 2.0, 0.0));
    assert!(square_collider.intersects(&line_segment, &p(0.0, 0.0, 0.0)));
}

#[test]
fn test_collider_intersects_diagonal_line() {
    let square_collider = SimpleCollider::new(square());
    let line_segment = (p(1.0, 1.0, 0.0), p(3.0, 3.0, 0.0));
    assert!(square_collider.intersects(&line_segment, &p(0.0, 0.0, 0.0)));
}

#[test]
fn test_collider_colliding_with_overlapping() {
    let square_collider = SimpleCollider::new(square());
    let other_collider = SimpleCollider::new(small_square());
    let current_pos = p(0.0, 0.0, 0.0);
    let other_pos = p(1.0, 1.0, 0.0);
    assert!(square_collider.colliding_with(&current_pos, &other_collider, &other_pos));
}

#[test]
fn test_collider_colliding_with_touching_edges() {
    let square_collider = SimpleCollider::new(square());
    let other_collider = SimpleCollider::new(small_square());
    let current_pos = p(5.0, 5.0, 0.0);
    let other_pos = p(6.0, 6.0, 0.0);
    assert!(square_collider.colliding_with(&current_pos, &other_collider, &other_pos));
}

#[test]
fn test_collider_not_colliding_with() {
    let square_collider = SimpleCollider::new(square());
    let other_collider = SimpleCollider::new(small_square());
    let current_pos = p(15.0, 5.0, 0.0);
    let other_pos = p(6.0, 6.0, 0.0);
    assert!(!square_collider.colliding_with(&current_pos, &other_collider, &other_pos));
}

#[test]
fn test_collider_colliding_point_inside() {
    let square_collider = SimpleCollider::new(square());
    let current_pos = p(0.0, 0.0, 0.0);
    let point = p(2.0, 2.0, 0.0);
    assert!(square_collider.colliding_point(&current_pos, &point));
}

#[test]
fn test_collider_colliding_point_outside() {
    let square_collider = SimpleCollider::new(square());
    let current_pos = p(0.0, 0.0, 0.0);
    let point = p(5.0, 5.0, 0.0);
    assert!(!square_collider.colliding_point(&current_pos, &point));
}

#[test]
fn test_point_collider_intersects() {
    let point = p(1.0, 1.0, 1.0);
    let collider = PointCollider::new(point.clone());
    let line_segment = (p(0.0, 0.0, 0.0), p(2.0, 2.0, 2.0));
    assert!(collider.intersects(&line_segment, &p(0.0, 0.0, 0.0)));
}

#[test]
fn test_point_collider_does_not_intersect() {
    let point = p(5.0, 5.0, 5.0);
    let collider = PointCollider::new(point.clone());
    let line_segment = (p(0.0, 0.0, 0.0), p(2.0, 2.0, 2.0));
    assert!(!collider.intersects(&line_segment, &p(0.0, 0.0, 0.0)));
}

#[test]
fn test_point_collider_colliding_with() {
    let point1 = p(1.0, 1.0, 1.0);
    let point2 = p(1.0, 1.0, 1.0);
    let collider1 = PointCollider::new(point1.clone());
    let collider2 = PointCollider::new(point2.clone());
    assert!(collider1.colliding_with(&point1, &collider2, &point2));
}

#[test]
fn test_point_collider_not_colliding_with() {
    let point1 = p(1.0, 1.0, 1.0);
    let point2 = p(2.0, 2.0, 2.0);
    let collider1 = PointCollider::new(point1.clone());
    let collider2 = PointCollider::new(point2.clone());
    assert!(!collider1.colliding_with(&point1, &collider2, &point2));
}

#[test]
fn test_point_collider_colliding_point() {
    let point = p(1.0, 1.0, 1.0);
    let collider = PointCollider::new(point.clone());
    assert!(collider.colliding_point(&p(0.0, 0.0, 0.0), &point));
}

#[test]
fn test_point_collider_not_colliding_point() {
    let point1 = p(1.0, 1.0, 1.0);
    let point2 = p(3.0, 2.0, 2.0);
    let collider = PointCollider::new(point1.clone());
    assert!(!collider.colliding_point(&point1, &point2));
}

#[test]
fn test_octagon_collider_points() {
    let size = 2.0;
    let octagon_collider = OctagonCollider::new((size * 1000.0) as i32);
    let points = octagon_collider.points();
    assert_eq!(points.len(), 8);
}

#[test]
fn test_octagon_collider_intersects() {
    let octagon_collider = OctagonCollider::new(2000);
    let line_segment = (p(-1.0, -1.0, 0.0), p(1.0, 1.0, 0.0));
    assert!(octagon_collider.intersects(&line_segment, &p(0.0, 0.0, 0.0)));
}

#[test]
fn test_octagon_collider_does_not_intersect() {
    let octagon_collider = OctagonCollider::new(2000);
    let line_segment = (p(3.0, 3.0, 0.0), p(4.0, 4.0, 0.0));
    assert!(!octagon_collider.intersects(&line_segment, &p(0.0, 0.0, 0.0)));
}

#[test]
fn test_octagon_collider_colliding_with() {
    let octagon_collider = OctagonCollider::new(2000);
    let other_collider = OctagonCollider::new(2000);
    let current_pos = p(0.0, 0.0, 0.0);
    let other_pos = p(1.0, 1.0, 0.0);
    assert!(octagon_collider.colliding_with(&current_pos, &other_collider, &other_pos));
}

#[test]
fn test_octagon_collider_not_colliding_with() {
    let octagon_collider = OctagonCollider::new(2000);
    let other_collider = OctagonCollider::new(2000);
    let current_pos = p(0.0, 0.0, 0.0);
    let other_pos = p(5.0, 5.0, 0.0);
    assert!(!octagon_collider.colliding_with(&current_pos, &other_collider, &other_pos));
}

#[test]
fn test_octagon_collider_colliding_point() {
    let octagon_collider = OctagonCollider::new(2000);
    let point = p(0.5, 0.5, 0.0);
    assert!(octagon_collider.colliding_point(&p(0.0, 0.0, 0.0), &point));
}

#[test]
fn test_octagon_collider_not_colliding_point() {
    let octagon_collider = OctagonCollider::new(2000);
    let point = p(3.0, 3.0, 0.0);
    assert!(!octagon_collider.colliding_point(&p(0.0, 0.0, 0.0), &point));
}

#[test]
fn octagon_corners_are_exact() {
    let points = OctagonCollider::new(2000).points();
    assert_eq!(
        points,
        vec![
            Point { x: 2000, y: 0, z: 0 },
            Point { x: 1414, y: 1414, z: 0 },
            Point { x: 0, y: 2000, z: 0 },
            Point { x: -1414, y: 1414, z: 0 },
            Point { x: -2000, y: 0, z: 0 },
            Point { x: -1414, y: -1414, z: 0 },
            Point { x: 0, y: -2000, z: 0 },
            Point { x: 1414, y: -1414, z: 0 },
        ]
    );
    let points = OctagonCollider::new(-10).points();
    assert_eq!(points[0], Point { x: -10, y: 0, z: 0 });
    assert_eq!(points[1], Point { x: -7, y: -7, z: 0 });
    assert_eq!(points[4], Point { x: 10, y: 0, z: 0 });
    let points = OctagonCollider::new(i32::MIN).points();
    assert_eq!(points[4], Point { x: i32::MAX, y: 0, z: 0 });
    assert_eq!(points[1], Point { x: -1518500249, y: -1518500249, z: 0 });
}

#[test]
fn cube_corners_are_exact() {
    let points = oxidized::collider::CubeCollider::new(100).points();
    assert_eq!(points.len(), 8);
    assert_eq!(points[0], Point { x: -50, y: -50, z: -50 });
    assert_eq!(points[1], Point { x: 50, y: -50, z: -50 });
    assert_eq!(points[2], Point { x: 50, y: 50, z: -50 });
    assert_eq!(points[3], Point { x: -50, y: 50, z: -50 });
    assert_eq!(points[6], Point { x: 50, y: 50, z: 50 });
    let points = oxidized::collider::CubeCollider::new(-101).points();
    assert_eq!(points[0], Point { x: 50, y: 50, z: 50 });
    let points = oxidized::collider::RectangularPrismCollider::new(2, 4, 7).points();
    assert_eq!(points[6], Point { x: 1, y: 2, z: 3 });
    assert_eq!(points[0], Point { x: -1, y: -2, z: -3 });
}

#[test]
fn boxes_that_touch_overlap() {
    let a = (Point { x: 0, y: 0, z: 0 }, Point { x: 10, y: 10, z: 10 });
    let b = (Point { x: 10, y: 0, z: 0 }, Point { x: 20, y: 10, z: 10 });
    let c = (Point { x: 11, y: 0, z: 0 }, Point { x: 20, y: 10, z: 10 });
    assert!(oxidized::collider::aabb_collision(&a, &b));
    assert!(oxidized::collider::aabb_collision(&b, &a));
    assert!(!oxidized::collider::aabb_collision(&a, &c));
    assert!(!oxidized::collider::aabb_collision(&c, &a));
}

#[test]
fn orientation_has_three_values() {
    let a = Point { x: 0, y: 0, z: 0 };
    let b = Point { x: 10, y: 0, z: 0 };
    assert_eq!(oxidized::collider::orientation(&a, &b, &Point { x: 5, y: 5, z: 0 }), -1);
    assert_eq!(oxidized::collider::orientation(&a, &b, &Point { x: 5, y: -5, z: 0 }), 1);
    assert_eq!(oxidized::collider::orientation(&a, &b, &Point { x: 20, y: 0, z: 9 }), 0);
    let far = Point { x: i32::MAX, y: i32::MIN, z: 0 };
    let other = Point { x: i32::MIN, y: i32::MAX, z: 0 };
    assert_eq!(oxidized::collider::orientation(&far, &other, &Point { x: 0, y: 0, z: 0 }), 1);
    assert_eq!(oxidized::collider::orientation(&far, &other, &Point { x: -1, y: 0, z: 0 }), 0);
}

#[test]
fn segment_over_a_cube_misses_it() {
    let cube = oxidized::collider::CubeCollider::new(2000);
    let origin = Point { x: 0, y: 0, z: 0 };
    let high = (Point { x: -3000, y: 0, z: 5000 }, Point { x: 3000, y: 0, z: 5000 });
    assert!(!cube.intersects(&high, &origin));
    let level = (Point { x: -3000, y: 0, z: 1000 }, Point { x: 3000, y: 0, z: 1000 });
    assert!(cube.intersects(&level, &origin));
    let above = (Point { x: -3000, y: 0, z: 1001 }, Point { x: 3000, y: 0, z: 1001 });
    assert!(!cube.intersects(&above, &origin));
    let away = (Point { x: -3000, y: 3000, z: 0 }, Point { x: 3000, y: 3000, z: 0 });
    assert!(!cube.intersects(&away, &origin));
    let unit = oxidized::collider::CubeCollider::new(1000);
    let over = (Point { x: -1000, y: 0, z: 5000 }, Point { x: 1000, y: 0, z: 5000 });
    assert!(!unit.intersects(&over, &origin));
    let through = (Point { x: -1000, y: 0, z: 0 }, Point { x: 1000, y: 0, z: 0 });
    assert!(unit.intersects(&through, &origin));
    let diving = (Point { x: -1000, y: 0, z: 5000 }, Point { x: 1000, y: 0, z: -5000 });
    assert!(unit.intersects(&diving, &origin));
    let steep = (Point { x: -1000, y: 0, z: 5000 }, Point { x: 1000, y: 0, z: 3000 });
    assert!(!unit.intersects(&steep, &origin));
}

#[test]
fn segment_meets_a_box_where_a_point_of_it_is_inside() {
    let min = Point { x: -500, y: -500, z: -500 };
    let max = Point { x: 500, y: 500, z: 500 };
    let at = |x: i32, y: i32, z: i32| Point { x, y, z };
    assert!(segment_meets_aabb(&at(-1000, 0, 0), &at(1000, 0, 0), &min, &max));
    assert!(segment_meets_aabb(&at(0, 0, 0), &at(0, 0, 0), &min, &max));
    assert!(segment_meets_aabb(&at(500, 500, 500), &at(9000, 9000, 9000), &min, &max));
    assert!(!segment_meets_aabb(&at(501, 500, 500), &at(9000, 9000, 9000), &min, &max));
    assert!(segment_meets_aabb(&at(-1000, 0, 0), &at(0, 1000, 0), &min, &max));
    assert!(!segment_meets_aabb(&at(-1001, 0, 0), &at(0, 1001, 0), &min, &max));
    assert!(!segment_meets_aabb(&at(-1000, 0, 5000), &at(1000, 0, 5000), &min, &max));
    assert!(segment_meets_aabb(&at(-1000, -1000, -1000), &at(1000, 1000, 1000), &min, &max));
    assert!(!segment_meets_aabb(&at(-1500, 0, 0), &at(0, 0, 1500), &min, &max));
    assert!(segment_meets_aabb(
        &at(i32::MIN, i32::MIN, i32::MIN),
        &at(i32::MAX, i32::MAX, i32::MAX),
        &min,
        &max
    ));
    assert!(!segment_meets_aabb(
        &at(i32::MIN, i32::MIN, i32::MAX),
        &at(i32::MAX, i32::MAX, i32::MAX),
        &min,
        &max
    ));
}

#[test]
fn collider_is_moved_to_its_position() {
    let cube: Collider = oxidized::collider::CubeCollider::new(1000);
    let at = Point { x: 5500, y: 0, z: 0 };
    let ray = (Point { x: 0, y: 0, z: 0 }, Point { x: 10000, y: 0, z: 0 });
    assert!(cube.intersects(&ray, &at));
    assert!(!cube.intersects(&ray, &Point { x: 5500, y: 2000, z: 0 }));
    assert!(cube.colliding_point(&at, &Point { x: 6000, y: 500, z: -500 }));
    assert!(!cube.colliding_point(&at, &Point { x: 6001, y: 500, z: -500 }));
}

#[test]
fn shadows_on_the_axes_tell_shapes_apart() {
    let square = square();
    let small = small_square();
    let origin = p(0.0, 0.0, 0.0);
    assert_eq!(project_onto_axis(&square, &origin, Axis::X), (0, 4000));
    assert_eq!(
        project_onto_axis(&small, &p(6.0, 6.0, 1.0), Axis::Y),
        (7000, 8000)
    );
    assert_eq!(
        project_onto_axis(&small, &p(6.0, 6.0, 1.0), Axis::Z),
        (1000, 1000)
    );
    assert!(sat_overlap(&square, &origin, &small, &p(1.0, 1.0, 0.0)));
    assert!(sat_overlap(&square, &origin, &small, &p(3.0, 3.0, 0.0)));
    assert!(!sat_overlap(&square, &origin, &small, &p(3.0, 3.0, 0.001)));
    assert!(!sat_overlap(&square, &origin, &small, &p(3.001, 3.0, 0.0)));
    assert!(!sat_overlap(&square, &p(15.0, 5.0, 0.0), &small, &p(6.0, 6.0, 0.0)));
}

#[test]
fn edge_that_stands_upright_is_met_only_in_its_own_plane() {
    let flat = oxidized::collider::RectangularPrismCollider::new(2000, 0, 2000);
    let origin = Point { x: 0, y: 0, z: 0 };
    assert_eq!(flat.points()[3], Point { x: -1000, y: 0, z: -1000 });
    assert_eq!(flat.points()[4], Point { x: -1000, y: 0, z: 1000 });
    let through = (Point { x: -2000, y: 0, z: 0 }, Point { x: 2000, y: 0, z: 0 });
    assert!(!flat.intersects(&through, &origin));
    let level = (Point { x: -2000, y: 0, z: -1000 }, Point { x: 2000, y: 0, z: -1000 });
    assert!(flat.intersects(&level, &origin));
}
