use rostgis::bbox::BBox;
use rostgis::geometry::Geometry;
use rostgis::gist::PredicateKind;
use rostgis::gist::geometry_gist_compress;
use rostgis::gist::geometry_gist_consistent;
use rostgis::gist::geometry_gist_decompress;
use rostgis::gist::geometry_gist_penalty;
use rostgis::gist::geometry_gist_picksplit_left;
use rostgis::gist::geometry_gist_picksplit_right;
use rostgis::gist::geometry_gist_same;
use rostgis::gist::geometry_gist_union;

fn bx(min_x: i64, min_y: i64, max_x: i64, max_y: i64) -> BBox {
    BBox::new(min_x, min_y, max_x, max_y).unwrap()
}

#[test]
fn test_compress_and_decompress() {
    let geom = Geometry::LineString(vec![(0, 0), (10, 5)], 0);
    let key = geometry_gist_compress(geom);
    assert_eq!(key, bx(0, 0, 10, 5));
    assert_eq!(geometry_gist_decompress(key), key);
}

#[test]
fn test_union_folds_all_entries() {
    let entries = vec![bx(0, 0, 1, 1), bx(5, -3, 6, 0), bx(-2, 2, 0, 4)];
    let u = geometry_gist_union(entries.clone());
    assert_eq!(u, bx(-2, -3, 6, 4));
    for e in entries {
        assert!(u.contains(&e));
    }
}

#[test]
fn test_union_of_nothing_is_zero_box() {
    assert_eq!(geometry_gist_union(vec![]), bx(0, 0, 0, 0));
}

#[test]
fn test_union_of_one_is_itself() {
    assert_eq!(geometry_gist_union(vec![bx(1, 2, 3, 4)]), bx(1, 2, 3, 4));
}

#[test]
fn test_penalty_is_enlargement() {
    let node = bx(0, 0, 10, 10);
    assert_eq!(geometry_gist_penalty(node, bx(2, 2, 4, 4)), 0);
    // absorbing (8,8)-(14,12) grows the envelope to (0,0)-(14,12)
    assert_eq!(geometry_gist_penalty(node, bx(8, 8, 14, 12)), 14 * 12 - 100);
}

#[test]
fn test_same_is_exact_equality() {
    assert!(geometry_gist_same(bx(1, 2, 3, 4), bx(1, 2, 3, 4)));
    assert!(!geometry_gist_same(bx(1, 2, 3, 4), bx(1, 2, 3, 5)));
}

#[test]
fn test_consistent_dispatch() {
    let key = bx(0, 0, 10, 10);
    let query = bx(5, 5, 15, 15);
    assert!(geometry_gist_consistent(key, query, PredicateKind::Overlap));
    assert!(!geometry_gist_consistent(key, query, PredicateKind::Contains));
    assert!(geometry_gist_consistent(bx(0, 0, 20, 20), query, PredicateKind::Contains));
    assert!(geometry_gist_consistent(key, bx(-5, -5, 15, 15), PredicateKind::ContainedBy));
    assert!(geometry_gist_consistent(key, bx(11, 0, 12, 1), PredicateKind::Left));
    assert!(geometry_gist_consistent(key, bx(-5, 0, -1, 1), PredicateKind::Right));
    assert!(geometry_gist_consistent(key, bx(0, 11, 1, 12), PredicateKind::Below));
    assert!(geometry_gist_consistent(key, bx(0, -5, 1, -1), PredicateKind::Above));
    assert!(geometry_gist_consistent(key, bx(0, 0, 10, 10), PredicateKind::SameBox));
    assert!(!geometry_gist_consistent(key, query, PredicateKind::SameBox));
}

#[test]
fn test_consistent_overlap_variants() {
    let key = bx(0, 0, 10, 10);
    // the over-variants negate the opposite strict predicate
    assert!(geometry_gist_consistent(key, bx(5, 0, 20, 1), PredicateKind::OverlapLeft));
    assert!(!geometry_gist_consistent(key, bx(-20, 0, -11, 1), PredicateKind::OverlapLeft));
    assert!(geometry_gist_consistent(key, bx(-20, 0, 5, 1), PredicateKind::OverlapRight));
    assert!(!geometry_gist_consistent(key, bx(11, 0, 20, 1), PredicateKind::OverlapRight));
    assert!(geometry_gist_consistent(key, bx(0, 5, 1, 20), PredicateKind::OverlapBelow));
    assert!(!geometry_gist_consistent(key, bx(0, -20, 1, -11), PredicateKind::OverlapBelow));
    assert!(geometry_gist_consistent(key, bx(0, -20, 1, 5), PredicateKind::OverlapAbove));
    assert!(!geometry_gist_consistent(key, bx(0, 11, 1, 20), PredicateKind::OverlapAbove));
}

#[test]
fn test_picksplit_halves() {
    let entries = vec![bx(0, 0, 1, 1), bx(1, 1, 2, 2), bx(2, 2, 3, 3), bx(3, 3, 4, 4)];
    let left = geometry_gist_picksplit_left(entries.clone());
    let right = geometry_gist_picksplit_right(entries.clone());
    assert_eq!(left, vec![bx(0, 0, 1, 1), bx(1, 1, 2, 2)]);
    assert_eq!(right, vec![bx(2, 2, 3, 3), bx(3, 3, 4, 4)]);
}

#[test]
fn test_picksplit_odd_length() {
    let entries = vec![bx(0, 0, 1, 1), bx(1, 1, 2, 2), bx(2, 2, 3, 3)];
    let left = geometry_gist_picksplit_left(entries.clone());
    let right = geometry_gist_picksplit_right(entries.clone());
    assert!(!left.is_empty() && !right.is_empty());
    let mut rejoined = left.clone();
    rejoined.extend(right);
    assert_eq!(rejoined, entries);
}

#[test]
fn test_picksplit_small_lists() {
    let one = vec![bx(0, 0, 1, 1)];
    assert_eq!(geometry_gist_picksplit_left(one.clone()), one);
    assert_eq!(geometry_gist_picksplit_right(one), Vec::<BBox>::new());
    assert_eq!(geometry_gist_picksplit_left(vec![]), Vec::<BBox>::new());
    assert_eq!(geometry_gist_picksplit_right(vec![]), Vec::<BBox>::new());
}
