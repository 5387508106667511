use rostgis::bbox::BBox;
use rostgis::bbox::COORD_LIMIT;

fn bx(min_x: i64, min_y: i64, max_x: i64, max_y: i64) -> BBox {
    BBox::new(min_x, min_y, max_x, max_y).unwrap()
}

#[test]
fn test_bbox_creation() {
    let bbox = bx(0, 0, 10, 10);
    assert_eq!(bbox.min_x, 0);
    assert_eq!(bbox.max_x, 10);
    assert_eq!(bbox.area(), 100);
}

#[test]
fn test_bbox_overlaps() {
    let bbox1 = bx(0, 0, 10, 10);
    let bbox2 = bx(5, 5, 15, 15);
    let bbox3 = bx(20, 20, 30, 30);

    assert!(bbox1.overlaps(&bbox2));
    assert!(!bbox1.overlaps(&bbox3));
}

#[test]
fn test_bbox_rejects_unordered_corners() {
    let err = BBox::new(10, 0, 0, 10).unwrap_err();
    assert_eq!(err.message, "Invalid bounding box");
    assert!(BBox::new(0, 10, 10, 0).is_err());
}

#[test]
fn test_bbox_rejects_out_of_range() {
    assert!(BBox::new(-COORD_LIMIT - 1, 0, 0, 0).is_err());
    assert!(BBox::new(0, 0, COORD_LIMIT + 1, 0).is_err());
    assert!(BBox::new(-COORD_LIMIT, -COORD_LIMIT, COORD_LIMIT, COORD_LIMIT).is_ok());
}

#[test]
fn test_overlap_is_symmetric() {
    let a = bx(0, 0, 10, 10);
    let b = bx(10, 10, 20, 20);
    let c = bx(11, 11, 12, 12);
    assert_eq!(a.overlaps(&b), b.overlaps(&a));
    assert!(a.overlaps(&b), "touching edges count as overlap");
    assert_eq!(a.overlaps(&c), c.overlaps(&a));
    assert!(!a.overlaps(&c));
}

#[test]
fn test_union_contains_both_and_grows() {
    let a = bx(0, 0, 4, 4);
    let b = bx(10, -2, 12, 3);
    let u = a.union(&b);
    assert!(u.contains(&a));
    assert!(u.contains(&b));
    assert!(u.area() >= a.area());
    assert!(u.area() >= b.area());
    assert_eq!(u, bx(0, -2, 12, 4));
}

#[test]
fn test_mutual_containment_is_equality() {
    let a = bx(1, 2, 3, 4);
    let b = bx(1, 2, 3, 4);
    let c = bx(1, 2, 3, 5);
    assert!(a.contains(&b) && b.contains(&a));
    assert_eq!(a, b);
    assert!(a.contains(&c) == false || c.contains(&a) == false);
    assert_ne!(a, c);
}

#[test]
fn test_enlargement_nonnegative_and_zero_when_contained() {
    let a = bx(0, 0, 10, 10);
    let inside = bx(2, 2, 5, 5);
    let outside = bx(8, 8, 14, 12);
    assert_eq!(a.enlargement(&inside), 0);
    assert!(a.enlargement(&outside) >= 0);
    assert_eq!(a.enlargement(&outside), 14 * 12 - 100);
}

#[test]
fn test_degenerate_boxes() {
    let point = bx(3, 4, 3, 4);
    assert_eq!(point.area(), 0);
    let line = bx(0, 0, 10, 0);
    assert_eq!(line.area(), 0);
    assert!(point.overlaps(&point));
    assert!(line.contains(&bx(2, 0, 5, 0)));
}

#[test]
fn test_directional_predicates() {
    let a = bx(0, 0, 1, 1);
    let b = bx(5, 5, 6, 6);
    assert!(a.left(&b));
    assert!(b.right(&a));
    assert!(a.below(&b));
    assert!(b.above(&a));
    assert!(!a.left(&a));
    assert!(a.within(&bx(0, 0, 2, 2)));
}

#[test]
fn test_intersection() {
    let a = bx(0, 0, 10, 10);
    let b = bx(5, 5, 15, 15);
    let c = bx(20, 20, 30, 30);
    assert_eq!(a.intersection(&b).unwrap(), bx(5, 5, 10, 10));
    assert!(a.intersection(&c).is_none());
    // touching boxes intersect in a degenerate box
    let d = bx(10, 0, 20, 10);
    assert_eq!(a.intersection(&d).unwrap(), bx(10, 0, 10, 10));
}

#[test]
fn test_center_distance_is_scaled_square() {
    // box centered at (5, 5); distance to (0, 0) is sqrt(50), and the
    // function returns four times the square: 200.
    let a = bx(0, 0, 10, 10);
    assert_eq!(a.center_distance_sq(0, 0), 200);
    assert_eq!(a.center_distance_sq(5, 5), 0);
}
