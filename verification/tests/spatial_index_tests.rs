use rostgis::bbox::BBox;
use rostgis::functions::make_point;
use rostgis::spatial_index::GeometryWithId;
use rostgis::spatial_index::IndexEntry;
use rostgis::spatial_index::SpatialIndex;

fn bx(min_x: i64, min_y: i64, max_x: i64, max_y: i64) -> BBox {
    BBox::new(min_x, min_y, max_x, max_y).unwrap()
}

fn point_entry(id: i64, x: i64, y: i64) -> GeometryWithId {
    GeometryWithId::new(id, make_point(x, y))
}

fn sorted_ids(entries: Vec<IndexEntry>) -> Vec<i64> {
    let mut ids: Vec<i64> = entries.into_iter().map(|e| e.id).collect();
    ids.sort();
    ids
}

#[test]
fn test_spatial_index() {
    let mut geometries = Vec::new();
    geometries.push(point_entry(1, 0, 0));
    geometries.push(point_entry(2, 10, 10));
    geometries.push(point_entry(3, 20, 20));

    let index = SpatialIndex::from_geometries(geometries);
    assert_eq!(index.size(), 3);

    let nearest = index.nearest_neighbor([1, 1]).unwrap();
    assert_eq!(nearest.id, 1);
}

#[test]
fn test_empty_tree_boundary() {
    let index = SpatialIndex::new();
    assert_eq!(index.size(), 0);
    assert!(index.is_empty());
    assert!(index.nearest_neighbor([0, 0]).is_none());
    assert!(index.query_bbox(&bx(-100, -100, 100, 100)).is_empty());
    assert!(index.k_nearest_neighbors([0, 0], 5).is_empty());
    assert!(index.within_distance([0, 0], 100).is_empty());
}

#[test]
fn test_default_is_empty() {
    let index = SpatialIndex::default();
    assert!(index.is_empty());
}

#[test]
fn test_range_query() {
    let index = SpatialIndex::from_geometries(vec![
        point_entry(1, 0, 0),
        point_entry(2, 5, 5),
        point_entry(3, 20, 20),
    ]);
    let found = index.query_bbox(&bx(0, 0, 10, 10));
    assert_eq!(sorted_ids(found), vec![1, 2]);
}

#[test]
fn test_range_query_touching_counts() {
    let index = SpatialIndex::from_geometries(vec![point_entry(1, 10, 10)]);
    // the query box touches the point at its corner
    assert_eq!(index.query_bbox(&bx(0, 0, 10, 10)).len(), 1);
    assert_eq!(index.query_bbox(&bx(0, 0, 9, 9)).len(), 0);
}

#[test]
fn test_query_roundtrip_with_union_envelope() {
    let pts: Vec<(i64, i64)> = vec![(0, 0), (7, -3), (12, 44), (-9, 2), (3, 3)];
    let mut geometries = Vec::new();
    let mut id: i64 = 1;
    for (x, y) in pts {
        geometries.push(point_entry(id, x, y));
        id += 1;
    }
    let boxes: Vec<BBox> = geometries.iter().map(|g| g.bbox).collect();
    let envelope = rostgis::gist::geometry_gist_union(boxes);
    let index = SpatialIndex::from_geometries(geometries);
    let found = index.query_bbox(&envelope);
    assert_eq!(sorted_ids(found), vec![1, 2, 3, 4, 5]);
}

#[test]
fn test_remove_then_reinsert_leaves_queries_unchanged() {
    let make = || {
        vec![
            point_entry(1, 0, 0),
            point_entry(2, 10, 10),
            point_entry(3, 20, 20),
        ]
    };
    let mut index = SpatialIndex::from_geometries(make());
    let everything = bx(-100, -100, 100, 100);
    let before = sorted_ids(index.query_bbox(&everything));
    let before_nearest = index.nearest_neighbor([1, 1]).unwrap().id;

    let target = point_entry(2, 10, 10);
    assert!(index.remove(&target));
    assert_eq!(index.size(), 2);
    index.insert(point_entry(2, 10, 10));

    assert_eq!(sorted_ids(index.query_bbox(&everything)), before);
    assert_eq!(index.nearest_neighbor([1, 1]).unwrap().id, before_nearest);
    assert_eq!(index.size(), 3);
}

#[test]
fn test_remove_absent_entry_returns_false() {
    let mut index = SpatialIndex::from_geometries(vec![point_entry(1, 0, 0)]);
    assert!(!index.remove(&point_entry(9, 5, 5)));
    // same coordinates but another id is another entry
    assert!(!index.remove(&point_entry(2, 0, 0)));
    assert_eq!(index.size(), 1);
}

#[test]
fn test_insert_grows_and_is_found() {
    let mut index = SpatialIndex::new();
    index.insert(point_entry(7, 3, 4));
    assert_eq!(index.size(), 1);
    assert!(!index.is_empty());
    let found = index.query_bbox(&bx(0, 0, 5, 5));
    assert_eq!(found.len(), 1);
    assert_eq!(found[0].id, 7);
    assert_eq!(found[0].bbox, bx(3, 4, 3, 4));
}

#[test]
fn test_duplicate_entries_both_held() {
    let mut index = SpatialIndex::new();
    index.insert(point_entry(1, 2, 2));
    index.insert(point_entry(1, 2, 2));
    assert_eq!(index.size(), 2);
    assert!(index.remove(&point_entry(1, 2, 2)));
    assert_eq!(index.size(), 1);
    assert!(index.remove(&point_entry(1, 2, 2)));
    assert!(index.is_empty());
}

#[test]
fn test_nearest_neighbor_ranking() {
    let index = SpatialIndex::from_geometries(vec![
        point_entry(1, 0, 0),
        point_entry(2, 10, 10),
        point_entry(3, 20, 20),
    ]);
    assert_eq!(index.nearest_neighbor([1, 1]).unwrap().id, 1);
    assert_eq!(index.nearest_neighbor([9, 9]).unwrap().id, 2);
    assert_eq!(index.nearest_neighbor([100, 100]).unwrap().id, 3);
}

#[test]
fn test_nearest_uses_envelope_center() {
    // a wide box centered at (10, 0) and a point at (3, 0): the query
    // point (5, 0) is nearer the point than the box's center
    let mut index = SpatialIndex::new();
    let wide = GeometryWithId::new(
        1,
        rostgis::geometry::Geometry::LineString(vec![(0, 0), (20, 0)], 0),
    );
    index.insert(wide);
    index.insert(point_entry(2, 3, 0));
    assert_eq!(index.nearest_neighbor([5, 0]).unwrap().id, 2);
    assert_eq!(index.nearest_neighbor([11, 0]).unwrap().id, 1);
}

#[test]
fn test_k_nearest_neighbors_order() {
    let index = SpatialIndex::from_geometries(vec![
        point_entry(1, 0, 0),
        point_entry(2, 10, 10),
        point_entry(3, 20, 20),
    ]);
    let two = index.k_nearest_neighbors([0, 0], 2);
    assert_eq!(two.len(), 2);
    assert_eq!(two[0].id, 1);
    assert_eq!(two[1].id, 2);
    // asking for more than held returns everything, still in order
    let all = index.k_nearest_neighbors([0, 0], 10);
    assert_eq!(all.len(), 3);
    assert_eq!(all[0].id, 1);
    assert_eq!(all[2].id, 3);
    assert!(index.k_nearest_neighbors([0, 0], 0).is_empty());
}

#[test]
fn test_within_distance_boundary_inclusive() {
    let index = SpatialIndex::from_geometries(vec![
        point_entry(1, 3, 4),
        point_entry(2, 30, 40),
    ]);
    // (3,4) lies at distance exactly 5 from the origin
    assert_eq!(sorted_ids(index.within_distance([0, 0], 5)), vec![1]);
    assert_eq!(sorted_ids(index.within_distance([0, 0], 4)), Vec::<i64>::new());
    assert_eq!(sorted_ids(index.within_distance([0, 0], 50)), vec![1, 2]);
    assert!(index.within_distance([0, 0], -1).is_empty());
}

#[test]
fn test_iter_yields_everything() {
    let index = SpatialIndex::from_geometries(vec![
        point_entry(1, 0, 0),
        point_entry(2, 10, 10),
    ]);
    assert_eq!(sorted_ids(index.iter()), vec![1, 2]);
}

#[test]
fn test_entry_accessors() {
    let g = point_entry(5, 7, 8);
    assert_eq!(g.envelope(), bx(7, 8, 7, 8));
    // four times the squared distance from (7,8) to (7,10)
    assert_eq!(g.distance_2([7, 10]), 16);
}

#[test]
fn test_build_and_query_scales() {
    // a 10 by 10 grid, spaced 10 units apart
    let mut geometries = Vec::new();
    let mut id: i64 = 0;
    for gx in 0..10 {
        for gy in 0..10 {
            geometries.push(point_entry(id, gx * 10, gy * 10));
            id += 1;
        }
    }
    let index = SpatialIndex::from_geometries(geometries);
    assert_eq!(index.size(), 100);
    // a small sub-box catches exactly the four grid points it covers
    let found = index.query_bbox(&bx(0, 0, 10, 10));
    assert_eq!(sorted_ids(found), vec![0, 1, 10, 11]);
}
