use podsim::checkpoint::CheckPoint;
use podsim::point::Point;

#[test]
fn test_checkpoint_creation() {
    let cp = CheckPoint::from_i32(100, 200);
    assert_eq!(cp.x, 100);
    assert_eq!(cp.y, 200);
    assert_eq!(cp.r, 600);
    assert_eq!(cp.r2, 360000);
}

#[test]
fn test_checkpoint_distance() {
    let cp = CheckPoint::from_i32(0, 0);
    let p = Point::from_i32(3, 4);
    assert_eq!(cp.distance(&p), 5);
}

#[test]
fn test_checkpoint_closest() {
    let cp = CheckPoint::from_i32(3, 2);
    let a = Point::from_i32(0, 0);
    let b = Point::from_i32(6, 0);

    // The closest point from cp to line a-b should be at (3, 0)
    let closest = cp.closest(&a, &b);
    assert!(closest.equals_point(&Point::from_i32(3, 0)));
}

#[test]
fn test_checkpoint_clone() {
    let cp = CheckPoint::from_i32(-7, 9);
    let c2 = cp.clone_checkpoint();
    assert_eq!(cp, c2);
}
