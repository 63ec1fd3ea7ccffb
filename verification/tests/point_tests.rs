use podsim::point::Point;

#[test]
fn test_distance() {
    let a = Point::from_i32(0, 0);
    let b = Point::from_i32(3, 4);
    let c = Point::from_i32(-3, -4);

    assert_eq!(a.distance(&b), 5);
    // Check both directions
    assert_eq!(c.distance(&b), 10);
    assert_eq!(b.distance(&c), 10);
}

#[test]
fn test_distance_sq() {
    let a = Point::from_i32(0, 0);
    let b = Point::from_i32(-3, -4);

    assert_eq!(a.distance_sq(&b), 25);
}

#[test]
fn test_closest_distance() {
    // Normal case
    let a = Point::from_i32(0, 0);
    let b = Point::from_i32(10, 0);
    let c = Point::from_i32(3, 1);
    let p1 = Point::from_i32(3, 0);

    assert!(c.closest(&a, &b).equals_point(&p1));

    // Before or after points
    let c = Point::from_i32(-3, 1);
    let p1 = Point::from_i32(-3, 0);
    assert!(c.closest(&a, &b).equals_point(&p1));

    let c = Point::from_i32(30, 1);
    let p1 = Point::from_i32(30, 0);
    assert!(c.closest(&a, &b).equals_point(&p1));

    // Already on segment
    let c = Point::from_i32(3, 0);
    let p1 = Point::from_i32(3, 0);
    assert!(c.closest(&a, &b).equals_point(&p1));

    // Diagonal segment on line
    let a = Point::from_i32(0, 0);
    let b = Point::from_i32(5, 5);
    let c = Point::from_i32(3, 3);
    let p1 = Point::from_i32(3, 3);
    assert!(c.closest(&a, &b).equals_point(&p1));

    // All same place: the degenerate segment returns the query point
    let a = Point::from_i32(0, 0);
    let b = Point::from_i32(0, 0);
    let c = Point::from_i32(0, 0);
    let p1 = Point::from_i32(0, 0);
    assert!(c.closest(&a, &b).equals_point(&p1));
}

#[test]
fn test_add() {
    let p1 = Point::from_i32(5, 5);
    let p2 = Point::from_i32(5, -5);
    let p3 = Point::from_i32(10, 0);

    assert_eq!(p1.plus(&p2), p3);

    let p1 = Point::from_i32(5, 5);
    let p2 = Point::from_i32(0, 0);
    assert_eq!(p1.plus(&p2), p1);
}

#[test]
fn test_sub() {
    let p1 = Point::from_i32(5, 5);
    let p2 = Point::from_i32(5, -5);
    let p3 = Point::from_i32(0, 10);

    assert_eq!(p1.minus(&p2), p3);

    let p1 = Point::from_i32(5, 5);
    let p2 = Point::from_i32(0, 0);
    assert_eq!(p1.minus(&p2), p1);
    assert_eq!(p1.minus(&p1), p2);
}

#[test]
fn test_equal() {
    let p1 = Point::from_i32(5, -2);
    let p2 = Point::from_i32(0, 0);

    assert!(!(p1 == p2));

    let p1 = Point::from_i32(5, -2);
    let p2 = Point::from_i32(5, -2);
    assert!(p1 == p2);
}

#[test]
fn test_norm() {
    let p1 = Point::from_i32(3, 4);
    assert_eq!(p1.norm_sq(), 25);

    let p1 = Point::from_i32(3, 4);
    assert_eq!(p1.norm(), 5);

    let p1 = Point::from_i32(15, 20);
    let p2 = Point::from_i32(12, 16);
    assert_eq!(p1.minus(&p2).norm_sq(), 25);
}

#[test]
fn test_closest_off_line_projection() {
    // A projection that is not a whole-unit point: (1,1) onto the line
    // from (0,0) to (2,1) lands at (6/5, 3/5).
    let a = Point::from_i32(0, 0);
    let b = Point::from_i32(2, 1);
    let c = Point::from_i32(1, 1);
    let proj = c.closest(&a, &b);
    assert_eq!(proj.x_num * 5, 6 * proj.den);
    assert_eq!(proj.y_num * 5, 3 * proj.den);
    assert!(!proj.equals_point(&Point::from_i32(1, 1)));
}
