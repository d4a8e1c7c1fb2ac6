use atc::geom::{
    distance_line_and_point, heading_to_point, is_point_in_circle, is_point_in_triangle, isqrt,
    point_distance, point_to_heading, rotate_point, rotate_points, Point, UNIT,
};

fn p(x: i64, y: i64) -> Point {
    Point { x, y }
}

#[test]
fn test_point_distance() {
    assert_eq!(0, point_distance(&p(1, 1), &p(1, 1)));
    assert_eq!(1, point_distance(&p(0, 1), &p(1, 1)));
    assert_eq!(1, point_distance(&p(1, 0), &p(1, 1)));
}

// Coordinates are ten times those of a unit circle, as points are integers.
#[test]
fn test_is_point_in_circle() {
    assert!(is_point_in_circle(p(0, 0), p(0, 0), 10));
    assert!(is_point_in_circle(p(5, 5), p(0, 0), 10));
    assert!(!is_point_in_circle(p(20, 0), p(0, 0), 10));
    assert!(!is_point_in_circle(p(0, 20), p(0, 0), 10));
    assert!(!is_point_in_circle(p(20, 20), p(0, 0), 10));
}

#[test]
fn test_is_point_in_triangle() {
    assert!(is_point_in_triangle(p(0, 0), &[p(-1, -1), p(1, 1), p(-1, 1)]));
    assert!(!is_point_in_triangle(p(2, 2), &[p(-1, -1), p(1, 1), p(-1, 1)]));
}

#[test]
fn test_heading_to_point() {
    assert_eq!((0, UNIT), (heading_to_point(0).x, heading_to_point(0).y));
    assert_eq!((UNIT, 0), (heading_to_point(90).x, heading_to_point(90).y));
    assert_eq!((0, -UNIT), (heading_to_point(180).x, heading_to_point(180).y));
    assert_eq!((-UNIT, 0), (heading_to_point(270).x, heading_to_point(270).y));
}

#[test]
fn test_point_to_heading() {
    assert_eq!(0, point_to_heading(p(0, 1)));
    assert_eq!(90, point_to_heading(p(1, 0)));
    assert_eq!(180, point_to_heading(p(0, -1)));
    assert_eq!(270, point_to_heading(p(-1, 0)));

    assert_eq!(45, point_to_heading(p(1, 1)));
    assert_eq!(135, point_to_heading(p(1, -1)));
    assert_eq!(225, point_to_heading(p(-1, -1)));
    assert_eq!(315, point_to_heading(p(-1, 1)));
}

#[test]
fn test_distance_line_and_point() {
    assert_eq!(0, distance_line_and_point(&[p(0, 0), p(0, 1)], &p(0, 0)));
    assert_eq!(1, distance_line_and_point(&[p(0, 0), p(0, 1)], &p(1, 0)));
    assert_eq!(1, distance_line_and_point(&[p(0, 0), p(1, 0)], &p(0, 1)));
}

#[test]
fn heading_round_trips_through_its_vector() {
    for h in [0, 45, 90, 135, 180, 225, 270, 315] {
        assert_eq!(h, point_to_heading(heading_to_point(h)));
    }
}

#[test]
fn point_to_heading_of_zero_vector_is_north() {
    assert_eq!(0, point_to_heading(p(0, 0)));
}

#[test]
fn segment_distance_clamps_to_the_ends() {
    // beyond the far end: distance to (0, 10)
    assert_eq!(5, distance_line_and_point(&[p(0, 0), p(0, 10)], &p(3, 14)));
    // before the start: distance to (0, 0)
    assert_eq!(5, distance_line_and_point(&[p(0, 0), p(0, 10)], &p(-3, -4)));
    // beside the segment: perpendicular distance
    assert_eq!(7, distance_line_and_point(&[p(0, 0), p(0, 10)], &p(7, 5)));
    // a segment of zero length
    assert_eq!(0, distance_line_and_point(&[p(4, 4), p(4, 4)], &p(9, 9)));
}

#[test]
fn rotating_north_by_ninety_gives_east() {
    assert_eq!(p(1000, 0), rotate_point(p(0, 0), p(0, 1000), 90));
    assert_eq!(p(5, 5), rotate_point(p(5, 5), p(5, 5), 33));
    assert_eq!(p(-1000, 0), rotate_point(p(0, 0), p(0, 1000), -90));
    let r = rotate_points(p(0, 0), &[p(0, 1000), p(1000, 0)], 180);
    assert_eq!(vec![p(0, -1000), p(-1000, 0)], r);
}

#[test]
fn centroid_is_inside_and_far_points_are_outside() {
    let t = [p(0, 0), p(30, 0), p(0, 30)];
    assert!(is_point_in_triangle(p(10, 10), &t));
    assert!(!is_point_in_triangle(p(100, 10), &t));
    assert!(!is_point_in_triangle(p(-1, 10), &t));
    assert!(!is_point_in_triangle(p(10, -50), &t));
}

#[test]
fn circle_holds_its_centre_but_not_its_rim() {
    assert!(is_point_in_circle(p(7, 7), p(7, 7), 1));
    assert!(!is_point_in_circle(p(3, 4), p(0, 0), 5));
    assert!(is_point_in_circle(p(3, 3), p(0, 0), 5));
}

#[test]
fn isqrt_rounds_down() {
    assert_eq!(0, isqrt(0));
    assert_eq!(3, isqrt(15));
    assert_eq!(4, isqrt(16));
    assert_eq!(1_000_000_000_000, isqrt(1_000_000_000_000_000_000_000_000));
}
