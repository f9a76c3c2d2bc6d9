use catcrop::geometry::{bounding_box, can_bound, BoundingBox, Point};

fn pts(v: &[(usize, usize)]) -> Vec<Point> {
    v.iter().map(|&(x, y)| Point::new(x, y)).collect()
}

#[test]
fn single_point_has_zero_width_at_the_point() {
    let b = bounding_box(pts(&[(37, 81)]));
    assert_eq!(b.width, 0);
    assert_eq!(b.top_left, Point::new(37, 81));
    assert_eq!(b.to_string(), "0x0+37+81");
}

#[test]
fn single_point_at_the_largest_coordinate() {
    let b = bounding_box(pts(&[(usize::MAX, usize::MAX)]));
    assert_eq!(b.width, 0);
    assert_eq!(b.top_left, Point::new(usize::MAX, usize::MAX));
}

#[test]
fn wide_points_are_padded_and_clamped() {
    let b = bounding_box(pts(&[(0, 0), (100, 50)]));
    assert_eq!(b.width, 110);
    assert_eq!(b.top_left, Point::new(0, 0));
    assert_eq!(b.to_string(), "110x110+0+0");
}

#[test]
fn square_padded_rectangle_keeps_its_corner() {
    let b = bounding_box(pts(&[(10, 10), (60, 60), (30, 20)]));
    assert_eq!(b.width, 60);
    assert_eq!(b.top_left, Point::new(5, 5));
}

#[test]
fn wide_rectangle_is_centred_vertically() {
    let b = bounding_box(pts(&[(100, 100), (200, 120)]));
    assert_eq!(b.width, 120);
    assert_eq!(b.top_left, Point::new(90, 50));
    assert_eq!(b.to_string(), "120x120+90+50");
}

#[test]
fn tall_rectangle_is_centred_horizontally() {
    let b = bounding_box(pts(&[(100, 100), (120, 200)]));
    assert_eq!(b.width, 120);
    assert_eq!(b.top_left, Point::new(50, 90));
    assert_eq!(b.to_string(), "120x120+50+90");
}

#[test]
fn shift_past_the_origin_is_held_at_zero() {
    let b = bounding_box(pts(&[(5, 0), (200, 10)]));
    assert_eq!(b.width, 219);
    assert_eq!(b.top_left, Point::new(0, 0));
}

#[test]
fn same_points_give_the_same_box() {
    let input = [(12, 400), (250, 31), (77, 77)];
    let a = bounding_box(pts(&input));
    let b = bounding_box(pts(&input));
    assert_eq!(a, b);
    assert_eq!(a.to_string(), b.to_string());
}

#[test]
fn new_squares_a_rectangle() {
    let b = BoundingBox::new(Point::new(40, 3), 30, 10);
    assert_eq!(b, BoundingBox { top_left: Point::new(40, 0), width: 30 });
    let b = BoundingBox::new(Point::new(40, 30), 10, 10);
    assert_eq!(b, BoundingBox { top_left: Point::new(40, 30), width: 10 });
}

#[test]
fn geometry_string_has_width_twice() {
    let b = BoundingBox { top_left: Point::new(1234, 5), width: 9876543210 };
    assert_eq!(b.to_string(), "9876543210x9876543210+1234+5");
}

#[test]
fn can_bound_rejects_empty_and_overflowing_points() {
    assert!(!can_bound(&Vec::new()));
    assert!(can_bound(&pts(&[(1, 2)])));
    assert!(can_bound(&pts(&[(0, 0), (usize::MAX - usize::MAX / 10, 0)])));
    assert!(!can_bound(&pts(&[(0, 0), (usize::MAX, 0)])));
    assert!(!can_bound(&pts(&[(0, 0), (0, usize::MAX - 5)])));
}
