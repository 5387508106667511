use rostgis::functions::make_point;
use rostgis::geometry::Geometry;
use rostgis::vectorized_ops::SpatialPredicate;
use rostgis::vectorized_ops::VectorizedOps;
use rostgis::vectorized_ops::bulk_contains;
use rostgis::vectorized_ops::bulk_overlaps;

#[test]
fn test_bulk_distances() {
    let points1 = vec![make_point(0, 0), make_point(1, 1)];
    let points2 = vec![make_point(3, 4), make_point(4, 5)];

    let distances = VectorizedOps::bulk_squared_distances(points1, points2);
    assert_eq!(distances.len(), 2);
    assert_eq!(distances[0], 25);  // squared distance from (0,0) to (3,4)
    assert_eq!(distances[1], 25);  // squared distance from (1,1) to (4,5)
}

#[test]
fn test_bulk_distances_non_points_count_zero() {
    let lines = vec![Geometry::LineString(vec![(0, 0), (1, 1)], 0)];
    let points = vec![make_point(3, 4)];
    assert_eq!(VectorizedOps::bulk_squared_distances(lines, points), vec![0]);
}

#[test]
fn test_prepare_for_bulk_processing() {
    let geometries = vec![
        make_point(3, 4),
        Geometry::LineString(vec![(0, 0), (10, 20)], 0),
        Geometry::LineString(vec![(0, 0), (5, 5)], 0),
    ];
    let coords = VectorizedOps::prepare_for_bulk_processing(geometries);
    assert_eq!(coords.len(), 3);
    assert_eq!(coords[0], (3, 4));
    assert_eq!(coords[1], (5, 10));
    // an odd extent rounds the center down
    assert_eq!(coords[2], (2, 2));
}

#[test]
fn test_bulk_bounding_boxes() {
    let geometries = vec![make_point(1, 2), Geometry::LineString(vec![(0, 5), (9, -1)], 0)];
    let boxes = VectorizedOps::bulk_bounding_boxes(geometries);
    assert_eq!(boxes, vec![(1, 2, 1, 2), (0, -1, 9, 5)]);
}

#[test]
fn test_bulk_spatial_predicates() {
    let a = vec![
        Geometry::LineString(vec![(0, 0), (10, 10)], 0),
        Geometry::LineString(vec![(0, 0), (10, 10)], 0),
    ];
    let b = vec![make_point(5, 5), make_point(20, 20)];
    let overlaps = VectorizedOps::bulk_spatial_predicates(a, b, SpatialPredicate::Overlaps);
    assert_eq!(overlaps, vec![true, false]);
}

#[test]
fn test_bulk_predicate_within() {
    let a = vec![make_point(5, 5)];
    let b = vec![Geometry::LineString(vec![(0, 0), (10, 10)], 0)];
    let within = VectorizedOps::bulk_spatial_predicates(a, b, SpatialPredicate::Within);
    assert_eq!(within, vec![true]);
}

#[test]
fn test_bulk_free_functions() {
    let a = vec![Geometry::LineString(vec![(0, 0), (10, 10)], 0)];
    let b = vec![make_point(5, 5)];
    assert_eq!(bulk_overlaps(a, b), vec![true]);
    let c = vec![Geometry::LineString(vec![(0, 0), (10, 10)], 0)];
    let d = vec![make_point(20, 20)];
    assert_eq!(bulk_contains(c, d), vec![false]);
}

#[test]
fn test_bulk_zip_truncates_to_shorter() {
    let a = vec![make_point(0, 0), make_point(1, 1), make_point(2, 2)];
    let b = vec![make_point(0, 0)];
    assert_eq!(VectorizedOps::bulk_squared_distances(a, b).len(), 1);
}
