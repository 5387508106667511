//! Bulk operations over many geometries at once.

use vstd::prelude::*;
use crate::bbox::COORD_LIMIT;
use crate::bbox::lemma_square_bounds;
use crate::geometry::Geometry;

verus! {

/// Bulk geometry operations for processing whole batches.
pub struct VectorizedOps;

/// The spatial relation a bulk predicate test evaluates.
#[derive(Debug, Clone, Copy, PartialEq, Eq, Structural)]
pub enum SpatialPredicate {
    /// The envelopes overlap.
    Overlaps,
    /// The first envelope contains the second.
    Contains,
    /// The first envelope is contained by the second.
    Within,
}

/// The representative coordinate pair of a geometry: its own coordinates
/// for a point, the envelope center (rounded down) for any other shape.
pub open spec fn rep_point(g: Geometry) -> (i64, i64) {
    match g {
        Geometry::Point(x, y, _) => (x, y),
        _ => {
            let e = g.spec_envelope();
            ((((e.min_x + e.max_x) / 2)) as i64, (((e.min_y + e.max_y) / 2)) as i64)
        },
    }
}

/// The squared distance between two point geometries; any other pairing
/// counts as zero.
pub open spec fn spec_pair_dist2(a: Geometry, b: Geometry) -> int {
    match (a, b) {
        (Geometry::Point(x1, y1, _), Geometry::Point(x2, y2, _)) => (x1 - x2) * (x1 - x2) + (y1
            - y2) * (y1 - y2),
        _ => 0,
    }
}

/// The answer of one bulk predicate test between two geometries.
pub open spec fn spec_predicate(a: Geometry, b: Geometry, p: SpatialPredicate) -> bool {
    match p {
        SpatialPredicate::Overlaps => a.spec_envelope().spec_overlaps(b.spec_envelope()),
        SpatialPredicate::Contains => a.spec_envelope().spec_contains(b.spec_envelope()),
        SpatialPredicate::Within => b.spec_envelope().spec_contains(a.spec_envelope()),
    }
}

/// Floor of half the sum of two coordinates within the supported range.
fn half_sum_floor(a: i64, b: i64) -> (r: i64)
    requires
        -COORD_LIMIT <= a <= COORD_LIMIT,
        -COORD_LIMIT <= b <= COORD_LIMIT,
    ensures
        r == (a + b) / 2,
{
    let sa: u64 = (a + COORD_LIMIT) as u64;
    let sb: u64 = (b + COORD_LIMIT) as u64;
    let q: u64 = (sa + sb) / 2;
    let r: i64 = (q as i64) - COORD_LIMIT;
    proof {
        assert((a + COORD_LIMIT + b + COORD_LIMIT) / 2 == (a + b) / 2 + COORD_LIMIT);
    }
    r
}

impl VectorizedOps {
    /// Reduces each geometry of a batch to one representative coordinate
    /// pair: the point itself, or the envelope center.
    pub fn prepare_for_bulk_processing(geometries: Vec<Geometry>) -> (r: Vec<(i64, i64)>)
        requires
            forall|i: int| 0 <= i < geometries@.len() ==> (#[trigger] geometries@[i]).wf(),
        ensures
            r@.len() == geometries@.len(),
            forall|i: int| 0 <= i < r@.len() ==> #[trigger] r@[i] == rep_point(geometries@[i]),
    {
        let n: usize = geometries.len();
        let mut out: Vec<(i64, i64)> = Vec::new();
        let mut i: usize = 0;
        while i < n
            invariant
                i <= n,
                n == geometries@.len(),
                forall|j: int| 0 <= j < geometries@.len() ==> (#[trigger] geometries@[j]).wf(),
                out@.len() == i,
                forall|j: int| 0 <= j < i ==> #[trigger] out@[j] == rep_point(geometries@[j]),
            decreases n - i,
        {
            let g = &geometries[i];
            let p: (i64, i64) = match g {
                Geometry::Point(x, y, _) => (*x, *y),
                _ => {
                    proof {
                        crate::geometry::lemma_envelope_wf(geometries@[i as int]);
                    }
                    let t = g.bounding_box();
                    let cx = half_sum_floor(t.0, t.2);
                    let cy = half_sum_floor(t.1, t.3);
                    (cx, cy)
                },
            };
            out.push(p);
            i = i + 1;
        }
        out
    }

    /// Squared distances between corresponding point geometries of two
    /// batches; a pairing that is not two points counts as zero. The
    /// batches are walked together and the shorter length decides.
    pub fn bulk_squared_distances(points1: Vec<Geometry>, points2: Vec<Geometry>) -> (r: Vec<
        i64,
    >)
        requires
            forall|i: int| 0 <= i < points1@.len() ==> (#[trigger] points1@[i]).wf(),
            forall|i: int| 0 <= i < points2@.len() ==> (#[trigger] points2@[i]).wf(),
        ensures
            r@.len() == if points1@.len() <= points2@.len() {
                points1@.len()
            } else {
                points2@.len()
            },
            forall|i: int|
                0 <= i < r@.len() ==> #[trigger] r@[i] == spec_pair_dist2(
                    points1@[i],
                    points2@[i],
                ),
    {
        let n: usize = if points1.len() <= points2.len() {
            points1.len()
        } else {
            points2.len()
        };
        let mut out: Vec<i64> = Vec::new();
        let mut i: usize = 0;
        while i < n
            invariant
                i <= n,
                n <= points1@.len(),
                n <= points2@.len(),
                forall|j: int| 0 <= j < points1@.len() ==> (#[trigger] points1@[j]).wf(),
                forall|j: int| 0 <= j < points2@.len() ==> (#[trigger] points2@[j]).wf(),
                out@.len() == i,
                forall|j: int|
                    0 <= j < i ==> #[trigger] out@[j] == spec_pair_dist2(
                        points1@[j],
                        points2@[j],
                    ),
            decreases n - i,
        {
            let d: i64 = match (&points1[i], &points2[i]) {
                (Geometry::Point(x1, y1, _), Geometry::Point(x2, y2, _)) => {
                    let dx: i64 = *x1 - *x2;
                    let dy: i64 = *y1 - *y2;
                    proof {
                        lemma_square_bounds(dx as int, 2 * (COORD_LIMIT as int));
                        lemma_square_bounds(dy as int, 2 * (COORD_LIMIT as int));
                        assert((2 * (COORD_LIMIT as int)) * (2 * (COORD_LIMIT as int))
                            == 40_000_000_000_000_000) by (nonlinear_arith);
                    }
                    dx * dx + dy * dy
                },
                _ => 0,
            };
            out.push(d);
            i = i + 1;
        }
        out
    }

    /// The envelope of each geometry of a batch, as corner tuples.
    pub fn bulk_bounding_boxes(geometries: Vec<Geometry>) -> (r: Vec<(i64, i64, i64, i64)>)
        ensures
            r@.len() == geometries@.len(),
            forall|i: int|
                0 <= i < r@.len() ==> ({
                    let e = (#[trigger] geometries@[i]).spec_envelope();
                    r@[i] == (e.min_x, e.min_y, e.max_x, e.max_y)
                }),
    {
        let n: usize = geometries.len();
        let mut out: Vec<(i64, i64, i64, i64)> = Vec::new();
        let mut i: usize = 0;
        while i < n
            invariant
                i <= n,
                n == geometries@.len(),
                out@.len() == i,
                forall|j: int|
                    0 <= j < i ==> ({
                        let e = (#[trigger] geometries@[j]).spec_envelope();
                        out@[j] == (e.min_x, e.min_y, e.max_x, e.max_y)
                    }),
            decreases n - i,
        {
            out.push(geometries[i].bounding_box());
            i = i + 1;
        }
        out
    }

    /// Evaluates one spatial predicate between corresponding geometries of
    /// two batches. The batches are walked together and the shorter length
    /// decides.
    pub fn bulk_spatial_predicates(
        geometries1: Vec<Geometry>,
        geometries2: Vec<Geometry>,
        predicate: SpatialPredicate,
    ) -> (r: Vec<bool>)
        ensures
            r@.len() == if geometries1@.len() <= geometries2@.len() {
                geometries1@.len()
            } else {
                geometries2@.len()
            },
            forall|i: int|
                0 <= i < r@.len() ==> #[trigger] r@[i] == spec_predicate(
                    geometries1@[i],
                    geometries2@[i],
                    predicate,
                ),
    {
        let n: usize = if geometries1.len() <= geometries2.len() {
            geometries1.len()
        } else {
            geometries2.len()
        };
        let mut out: Vec<bool> = Vec::new();
        let mut i: usize = 0;
        while i < n
            invariant
                i <= n,
                n <= geometries1@.len(),
                n <= geometries2@.len(),
                out@.len() == i,
                forall|j: int|
                    0 <= j < i ==> #[trigger] out@[j] == spec_predicate(
                        geometries1@[j],
                        geometries2@[j],
                        predicate,
                    ),
            decreases n - i,
        {
            let b: bool = match predicate {
                SpatialPredicate::Overlaps => geometries1[i].bbox_overlaps(&geometries2[i]),
                SpatialPredicate::Contains => geometries1[i].bbox_contains(&geometries2[i]),
                SpatialPredicate::Within => geometries1[i].bbox_within(&geometries2[i]),
            };
            out.push(b);
            i = i + 1;
        }
        out
    }
}

/// Bulk envelope-overlap tests between corresponding geometries.
pub fn bulk_overlaps(geometries1: Vec<Geometry>, geometries2: Vec<Geometry>) -> (r: Vec<bool>)
    ensures
        r@.len() == if geometries1@.len() <= geometries2@.len() {
            geometries1@.len()
        } else {
            geometries2@.len()
        },
        forall|i: int|
            0 <= i < r@.len() ==> #[trigger] r@[i] == spec_predicate(
                geometries1@[i],
                geometries2@[i],
                SpatialPredicate::Overlaps,
            ),
{
    VectorizedOps::bulk_spatial_predicates(geometries1, geometries2, SpatialPredicate::Overlaps)
}

/// Bulk envelope-containment tests between corresponding geometries.
pub fn bulk_contains(geometries1: Vec<Geometry>, geometries2: Vec<Geometry>) -> (r: Vec<bool>)
    ensures
        r@.len() == if geometries1@.len() <= geometries2@.len() {
            geometries1@.len()
        } else {
            geometries2@.len()
        },
        forall|i: int|
            0 <= i < r@.len() ==> #[trigger] r@[i] == spec_predicate(
                geometries1@[i],
                geometries2@[i],
                SpatialPredicate::Contains,
            ),
{
    VectorizedOps::bulk_spatial_predicates(geometries1, geometries2, SpatialPredicate::Contains)
}

} // verus!
