//! A spatial index over bounding boxes with verified queries.
//!
//! The index owns a set of entries, each an id with its envelope, held in
//! an R-tree. Range queries are answered by the tree; the distance-based
//! queries rank entries by the distance from the query point to the
//! envelope center, exactly as specified, over the tree's own enumeration
//! of its entries.

use vstd::prelude::*;
use vstd::multiset::Multiset;
use vstd::seq_lib::lemma_multiset_commutative;
use crate::bbox::BBox;
use crate::bbox::COORD_LIMIT;
use crate::bbox::lemma_contains_implies_overlaps;
use crate::bbox::lemma_square_bounds;
use crate::geometry::Geometry;
use crate::store::EntryStore;
use crate::store::store_bulk_load;
use crate::store::store_contents;
use crate::store::store_insert;
use crate::store::store_iter_all;
use crate::store::store_locate_intersecting;
use crate::store::store_new;
use crate::store::store_remove;
use crate::store::store_size;

verus! {

broadcast use vstd::seq_lib::group_to_multiset_ensures, vstd::multiset::group_multiset_axioms;

/// What the index stores for one object: its id and its envelope. Two
/// entries are the same exactly when both agree.
#[derive(Debug, Clone, Copy, PartialEq, Eq, Structural)]
pub struct IndexEntry {
    pub id: i64,
    pub bbox: BBox,
}

/// A geometry together with the id under which it is indexed and its
/// cached envelope. The envelope is computed once, here; an object whose
/// shape changes must be removed and reinserted.
#[derive(Debug)]
pub struct GeometryWithId {
    pub id: i64,
    pub geometry: Geometry,
    pub bbox: BBox,
}

/// The index entry a geometry is stored under.
pub open spec fn entry_of(g: GeometryWithId) -> IndexEntry {
    IndexEntry { id: g.id, bbox: g.bbox }
}

/// The sequence of index entries of a batch of geometries.
pub open spec fn entries_of(s: Seq<GeometryWithId>) -> Seq<IndexEntry> {
    s.map_values(|g: GeometryWithId| entry_of(g))
}

/// The squared center distance an entry is ranked by (four times the
/// Euclidean square, a constant factor that preserves every comparison).
pub open spec fn edist(e: IndexEntry, px: i64, py: i64) -> int {
    e.bbox.spec_center_dist_sq(px, py)
}

impl GeometryWithId {
    /// Pairs a geometry with an id, caching its envelope.
    pub fn new(id: i64, geometry: Geometry) -> (r: GeometryWithId)
        ensures
            r.id == id,
            r.geometry == geometry,
            r.bbox == geometry.spec_envelope(),
            geometry.wf() ==> r.bbox.wf(),
    {
        let bbox = BBox::from_geometry(&geometry);
        GeometryWithId { id, geometry, bbox }
    }

    /// The cached envelope.
    pub fn envelope(&self) -> (r: BBox)
        ensures
            r == self.bbox,
    {
        self.bbox
    }

    /// Four times the squared Euclidean distance from the envelope center
    /// to the point.
    pub fn distance_2(&self, point: [i64; 2]) -> (r: i64)
        requires
            self.bbox.wf(),
            -COORD_LIMIT <= point@[0] <= COORD_LIMIT,
            -COORD_LIMIT <= point@[1] <= COORD_LIMIT,
        ensures
            r == self.bbox.spec_center_dist_sq(point@[0], point@[1]),
    {
        self.bbox.center_distance_sq(point[0], point[1])
    }
}

/// A spatial index over id-and-envelope entries.
pub struct SpatialIndex {
    store: EntryStore,
}

impl View for SpatialIndex {
    type V = Multiset<IndexEntry>;

    /// The multiset of entries the index holds.
    closed spec fn view(&self) -> Multiset<IndexEntry> {
        store_contents(self.store)
    }
}

impl SpatialIndex {
    /// Every entry of the index has a well-formed envelope. Constructors
    /// establish this and every operation preserves it.
    pub open spec fn wf(self) -> bool {
        forall|e: IndexEntry| self@.count(e) > 0 ==> (#[trigger] e.bbox).wf()
    }

    /// Creates an empty index.
    pub fn new() -> (r: SpatialIndex)
        ensures
            r@ == Multiset::<IndexEntry>::empty(),
            r.wf(),
    {
        SpatialIndex { store: store_new() }
    }

    /// Bulk-loads an index from a batch of geometries in one pass, which
    /// builds a better tree than repeated insertion.
    pub fn from_geometries(geometries: Vec<GeometryWithId>) -> (r: SpatialIndex)
        requires
            forall|i: int|
                0 <= i < geometries@.len() ==> (#[trigger] geometries@[i]).bbox.wf(),
        ensures
            r@ == entries_of(geometries@).to_multiset(),
            r.wf(),
    {
        let n: usize = geometries.len();
        let mut entries: Vec<IndexEntry> = Vec::new();
        let mut i: usize = 0;
        while i < n
            invariant
                i <= n,
                n == geometries@.len(),
                entries@.len() == i,
                forall|j: int| 0 <= j < i ==> entries@[j] == entry_of(#[trigger] geometries@[j]),
                forall|j: int|
                    0 <= j < geometries@.len() ==> (#[trigger] geometries@[j]).bbox.wf(),
            decreases n - i,
        {
            let g = &geometries[i];
            entries.push(IndexEntry { id: g.id, bbox: g.bbox });
            i = i + 1;
        }
        proof {
            assert(entries@ =~= entries_of(geometries@));
        }
        let store = store_bulk_load(entries);
        let r = SpatialIndex { store };
        proof {
            assert forall|e: IndexEntry| r@.count(e) > 0 implies (#[trigger] e.bbox).wf() by {
                assert(entries_of(geometries@).contains(e));
                let j = choose|j: int|
                    0 <= j < entries_of(geometries@).len() && entries_of(geometries@)[j] == e;
                assert(e == entry_of(geometries@[j]));
            }
        }
        r
    }

    /// Inserts a geometry into the index.
    pub fn insert(&mut self, geom_with_id: GeometryWithId)
        requires
            geom_with_id.bbox.wf(),
        ensures
            final(self)@ == old(self)@.insert(entry_of(geom_with_id)),
            old(self).wf() ==> final(self).wf(),
    {
        let e = IndexEntry { id: geom_with_id.id, bbox: geom_with_id.bbox };
        store_insert(&mut self.store, e);
    }

    /// Removes the entry matching the geometry's id and exact envelope.
    /// Returns whether one was found; when several equal entries are held,
    /// one of them leaves.
    pub fn remove(&mut self, geom_with_id: &GeometryWithId) -> (r: bool)
        requires
            geom_with_id.bbox.wf(),
        ensures
            ({
                let e = entry_of(*geom_with_id);
                &&& r == (old(self)@.count(e) > 0)
                &&& old(self)@.count(e) > 0 ==> final(self)@ == old(self)@.remove(e)
                &&& old(self)@.count(e) == 0 ==> final(self)@ == old(self)@
            }),
            old(self).wf() ==> final(self).wf(),
    {
        let e = IndexEntry { id: geom_with_id.id, bbox: geom_with_id.bbox };
        store_remove(&mut self.store, e)
    }

    /// Returns every entry whose envelope overlaps the given box, in an
    /// unspecified order. Touching counts as overlap; subtrees whose
    /// envelope misses the box are pruned by the tree.
    pub fn query_bbox(&self, bbox: &BBox) -> (r: Vec<IndexEntry>)
        requires
            self.wf(),
            bbox.wf(),
        ensures
            r@.to_multiset() == self@.filter(|e: IndexEntry| e.bbox.spec_overlaps(*bbox)),
    {
        store_locate_intersecting(&self.store, *bbox)
    }

    /// The number of entries held.
    pub fn size(&self) -> (r: usize)
        ensures
            r == self@.len(),
    {
        store_size(&self.store)
    }

    /// Whether the index holds no entry.
    pub fn is_empty(&self) -> (r: bool)
        ensures
            r == (self@.len() == 0),
    {
        store_size(&self.store) == 0
    }

    /// Every entry held, in an unspecified order.
    pub fn iter(&self) -> (r: Vec<IndexEntry>)
        ensures
            r@.to_multiset() == self@,
    {
        store_iter_all(&self.store)
    }
}

/// An entry within the given radius of the point: a non-negative radius
/// and a center distance of at most the radius. Both sides of the
/// comparison carry the same constant factor of four.
pub open spec fn within_radius(e: IndexEntry, px: i64, py: i64, radius: i64) -> bool {
    radius >= 0 && edist(e, px, py) <= 4 * (radius * radius)
}

/// Entries in non-decreasing order of center distance from the point.
pub open spec fn sorted_by_dist(s: Seq<IndexEntry>, px: i64, py: i64) -> bool {
    forall|i: int, j: int| 0 <= i <= j < s.len() ==> edist(#[trigger] s[i], px, py) <= edist(
        #[trigger] s[j],
        px,
        py,
    )
}

/// The center distance of a well-formed entry from an in-range point is
/// bounded by the squared diagonal of the coordinate plane.
pub proof fn lemma_edist_bound(e: IndexEntry, px: i64, py: i64)
    requires
        e.bbox.wf(),
        -COORD_LIMIT <= px <= COORD_LIMIT,
        -COORD_LIMIT <= py <= COORD_LIMIT,
    ensures
        0 <= edist(e, px, py) <= 320_000_000_000_000_000,
{
    let dx = e.bbox.min_x + e.bbox.max_x - 2 * px;
    let dy = e.bbox.min_y + e.bbox.max_y - 2 * py;
    lemma_square_bounds(dx, 4 * (COORD_LIMIT as int));
    lemma_square_bounds(dy, 4 * (COORD_LIMIT as int));
    assert((4 * (COORD_LIMIT as int)) * (4 * (COORD_LIMIT as int))
        == 160_000_000_000_000_000) by (nonlinear_arith);
}

/// Filtering distributes over inserting one element.
proof fn lemma_multiset_filter_insert<A>(m: Multiset<A>, f: spec_fn(A) -> bool, x: A)
    ensures
        f(x) ==> m.insert(x).filter(f) == m.filter(f).insert(x),
        !f(x) ==> m.insert(x).filter(f) == m.filter(f),
{
    if f(x) {
        assert(m.insert(x).filter(f) =~= m.filter(f).insert(x));
    } else {
        assert(m.insert(x).filter(f) =~= m.filter(f));
    }
}

impl SpatialIndex {
    /// The entry nearest to the point, measured from the envelope center,
    /// or nothing when the index is empty. Among entries at the same
    /// distance, which one is returned is not specified.
    pub fn nearest_neighbor(&self, point: [i64; 2]) -> (r: Option<IndexEntry>)
        requires
            self.wf(),
            -COORD_LIMIT <= point@[0] <= COORD_LIMIT,
            -COORD_LIMIT <= point@[1] <= COORD_LIMIT,
        ensures
            r is Some <==> self@.len() > 0,
            r matches Some(e) ==> self@.count(e) > 0 && (forall|f: IndexEntry|
                self@.count(f) > 0 ==> edist(e, point@[0], point@[1]) <= edist(
                    f,
                    point@[0],
                    point@[1],
                )),
    {
        let v = store_iter_all(&self.store);
        if v.len() == 0 {
            return None;
        }
        let px = point[0];
        let py = point[1];
        proof {
            assert(v@.contains(v@[0]));
        }
        let mut best: IndexEntry = v[0];
        let mut best_d: i64 = best.bbox.center_distance_sq(px, py);
        let mut i: usize = 1;
        while i < v.len()
            invariant
                1 <= i <= v@.len(),
                v@.to_multiset() == self@,
                self.wf(),
                -COORD_LIMIT <= px <= COORD_LIMIT,
                -COORD_LIMIT <= py <= COORD_LIMIT,
                v@.contains(best),
                best_d == edist(best, px, py),
                forall|j: int| 0 <= j < i ==> best_d <= edist(#[trigger] v@[j], px, py),
            decreases v@.len() - i,
        {
            proof {
                assert(v@.contains(v@[i as int]));
            }
            let d = v[i].bbox.center_distance_sq(px, py);
            if d < best_d {
                best = v[i];
                best_d = d;
            }
            i = i + 1;
        }
        proof {
            assert forall|f: IndexEntry| self@.count(f) > 0 implies edist(best, px, py) <= edist(
                f,
                px,
                py,
            ) by {
                assert(v@.contains(f));
                let j = choose|j: int| 0 <= j < v@.len() && v@[j] == f;
                assert(edist(v@[j], px, py) >= best_d);
            }
        }
        Some(best)
    }

    /// Every entry whose center lies within the given distance of the
    /// point, in an unspecified order. Distances are compared squared; a
    /// negative radius admits nothing.
    pub fn within_distance(&self, point: [i64; 2], radius: i64) -> (r: Vec<IndexEntry>)
        requires
            self.wf(),
            -COORD_LIMIT <= point@[0] <= COORD_LIMIT,
            -COORD_LIMIT <= point@[1] <= COORD_LIMIT,
        ensures
            r@.to_multiset() == self@.filter(
                (|e: IndexEntry| within_radius(e, point@[0], point@[1], radius)),
            ),
    {
        let px = point[0];
        let py = point[1];
        let ghost f = |e: IndexEntry| within_radius(e, px, py, radius);
        if radius < 0 {
            let r: Vec<IndexEntry> = Vec::new();
            proof {
                assert(r@.to_multiset() =~= self@.filter(f));
            }
            return r;
        }
        // Any radius covering the whole coordinate plane admits every
        // well-formed entry; capping the comparison there keeps the
        // squared radius within `i64` without changing the outcome.
        let cap: i64 = 600_000_000;
        let rc: i64 = if radius > cap {
            cap
        } else {
            radius
        };
        proof {
            assert(rc * rc <= 360_000_000_000_000_000) by (nonlinear_arith)
                requires
                    0 <= rc <= 600_000_000,
            ;
        }
        let rc2: i64 = rc * rc;
        let bound: i64 = 4 * rc2;
        let v = store_iter_all(&self.store);
        let n: usize = v.len();
        let mut out: Vec<IndexEntry> = Vec::new();
        let mut i: usize = 0;
        while i < n
            invariant
                i <= n,
                n == v@.len(),
                v@.to_multiset() == self@,
                self.wf(),
                -COORD_LIMIT <= px <= COORD_LIMIT,
                -COORD_LIMIT <= py <= COORD_LIMIT,
                radius >= 0,
                rc == if radius > 600_000_000 {
                    600_000_000i64
                } else {
                    radius
                },
                bound == 4 * (rc * rc),
                f == (|e: IndexEntry| within_radius(e, px, py, radius)),
                out@.to_multiset() == v@.take(i as int).to_multiset().filter(f),
            decreases n - i,
        {
            proof {
                assert(v@.contains(v@[i as int]));
            }
            let e = v[i];
            let d = e.bbox.center_distance_sq(px, py);
            proof {
                lemma_edist_bound(e, px, py);
                if radius > 600_000_000 {
                    assert(radius * radius >= 360_000_000_000_000_000) by (nonlinear_arith)
                        requires
                            radius > 600_000_000,
                    ;
                    assert(rc * rc == 360_000_000_000_000_000) by (nonlinear_arith)
                        requires
                            rc == 600_000_000,
                    ;
                }
                assert((d <= bound) == f(e));
                assert(v@.take(i + 1int) =~= v@.take(i as int).push(v@[i as int]));
                lemma_multiset_filter_insert(v@.take(i as int).to_multiset(), f, e);
            }
            if d <= bound {
                out.push(e);
            }
            i = i + 1;
        }
        proof {
            assert(v@.take(n as int) =~= v@);
        }
        out
    }

    /// The `k` entries nearest to the point, in non-decreasing order of
    /// center distance: every entry left out lies at least as far away as
    /// every entry returned. Fewer than `k` entries are returned only when
    /// the index holds fewer.
    pub fn k_nearest_neighbors(&self, point: [i64; 2], k: usize) -> (r: Vec<IndexEntry>)
        requires
            self.wf(),
            -COORD_LIMIT <= point@[0] <= COORD_LIMIT,
            -COORD_LIMIT <= point@[1] <= COORD_LIMIT,
        ensures
            r@.len() == if k <= self@.len() {
                k as int
            } else {
                self@.len() as int
            },
            sorted_by_dist(r@, point@[0], point@[1]),
            r@.to_multiset().subset_of(self@),
            forall|f: IndexEntry, i: int|
                #![trigger self@.sub(r@.to_multiset()).count(f), r@[i]]
                self@.sub(r@.to_multiset()).count(f) > 0 && 0 <= i < r@.len() ==> edist(
                    r@[i],
                    point@[0],
                    point@[1],
                ) <= edist(f, point@[0], point@[1]),
    {
        let px = point[0];
        let py = point[1];
        let mut v = store_iter_all(&self.store);
        let mut out: Vec<IndexEntry> = Vec::new();
        while v.len() > 0
            invariant
                out@.to_multiset().add(v@.to_multiset()) == self@,
                self.wf(),
                -COORD_LIMIT <= px <= COORD_LIMIT,
                -COORD_LIMIT <= py <= COORD_LIMIT,
                sorted_by_dist(out@, px, py),
                forall|a: int, b: int|
                    0 <= a < out@.len() && 0 <= b < v@.len() ==> edist(
                        #[trigger] out@[a],
                        px,
                        py,
                    ) <= edist(#[trigger] v@[b], px, py),
            decreases v@.len(),
        {
            proof {
                assert forall|j: int| 0 <= j < v@.len() implies (#[trigger] v@[j]).bbox.wf() by {
                    assert(v@.contains(v@[j]));
                    assert(self@.count(v@[j]) >= v@.to_multiset().count(v@[j]));
                }
            }
            let mut m: usize = 0;
            let mut md: i64 = v[0].bbox.center_distance_sq(px, py);
            let mut t: usize = 1;
            while t < v.len()
                invariant
                    1 <= t <= v@.len(),
                    m < t,
                    -COORD_LIMIT <= px <= COORD_LIMIT,
                    -COORD_LIMIT <= py <= COORD_LIMIT,
                    forall|j: int| 0 <= j < v@.len() ==> (#[trigger] v@[j]).bbox.wf(),
                    md == edist(v@[m as int], px, py),
                    forall|j: int| 0 <= j < t ==> md <= edist(#[trigger] v@[j], px, py),
                decreases v@.len() - t,
            {
                let d = v[t].bbox.center_distance_sq(px, py);
                if d < md {
                    m = t;
                    md = d;
                }
                t = t + 1;
            }
            let ghost old_v = v@;
            let ghost old_out = out@;
            let e = v.remove(m);
            out.push(e);
            proof {
                assert(old_v.remove(m as int).to_multiset() =~= old_v.to_multiset().remove(e));
                assert(out@.to_multiset() =~= old_out.to_multiset().insert(e));
                assert forall|y: IndexEntry|
                    out@.to_multiset().add(v@.to_multiset()).count(y) == self@.count(
                        y,
                    ) by {
                    assert(old_v.to_multiset().count(e) > 0) by {
                        assert(old_v.contains(e));
                    }
                }
                assert(out@.to_multiset().add(v@.to_multiset()) =~= self@);
                assert forall|a: int, b: int|
                    0 <= a < out@.len() && 0 <= b < v@.len() implies edist(
                    #[trigger] out@[a],
                    px,
                    py,
                ) <= edist(#[trigger] v@[b], px, py) by {
                    if a < out@.len() - 1 {
                        assert(out@[a] == old_out[a]);
                    }
                    if b < m {
                        assert(v@[b] == old_v[b]);
                    } else {
                        assert(v@[b] == old_v[b + 1]);
                    }
                }
            }
        }
        // The sorted list holds exactly the index's entries; keep the
        // first `k` of them.
        proof {
            assert(out@.to_multiset().add(v@.to_multiset()) == self@);
            assert(v@ =~= Seq::<IndexEntry>::empty());
            assert(v@.to_multiset().len() == 0);
            assert(out@.to_multiset() =~= self@);
        }
        let n: usize = out.len();
        let kk: usize = if k < n {
            k
        } else {
            n
        };
        let mut r: Vec<IndexEntry> = Vec::new();
        let mut i: usize = 0;
        while i < kk
            invariant
                i <= kk <= n,
                n == out@.len(),
                r@ == out@.take(i as int),
            decreases kk - i,
        {
            r.push(out[i]);
            proof {
                assert(out@.take(i + 1int) =~= out@.take(i as int).push(out@[i as int]));
            }
            i = i + 1;
        }
        proof {
            let px_g = point@[0];
            let py_g = point@[1];
            let taken = out@.take(kk as int);
            let rest = out@.skip(kk as int);
            assert(r@ == taken);
            assert(taken + rest =~= out@);
            lemma_multiset_commutative(taken, rest);
            assert(self@.sub(taken.to_multiset()) =~= rest.to_multiset());
            assert forall|f: IndexEntry, i2: int|
                #![trigger self@.sub(r@.to_multiset()).count(f), r@[i2]]
                self@.sub(r@.to_multiset()).count(f) > 0 && 0 <= i2 < r@.len() implies edist(
                r@[i2],
                px_g,
                py_g,
            ) <= edist(f, px_g, py_g) by {
                assert(rest.to_multiset().count(f) > 0);
                assert(rest.contains(f));
                let j = choose|j: int| 0 <= j < rest.len() && rest[j] == f;
                assert(rest[j] == out@[kk + j]);
                assert(r@[i2] == out@[i2]);
                assert(edist(out@[i2], px_g, py_g) <= edist(out@[kk + j], px_g, py_g));
            }
        }
        r
    }
}

impl Default for SpatialIndex {
    /// An empty index.
    fn default() -> (r: SpatialIndex)
        ensures
            r@ == Multiset::<IndexEntry>::empty(),
            r.wf(),
    {
        SpatialIndex::new()
    }
}

/// Filtering an entry multiset by a box that covers every entry keeps all
/// of them: a range query with the union envelope of what was loaded
/// returns exactly the loaded entries, none missing, none duplicated.
pub proof fn lemma_query_union_roundtrip(c: Multiset<IndexEntry>, u: BBox)
    requires
        forall|e: IndexEntry|
            c.count(e) > 0 ==> (#[trigger] e.bbox).wf() && u.spec_contains(e.bbox),
    ensures
        c.filter(|e: IndexEntry| e.bbox.spec_overlaps(u)) == c,
{
    let f = |e: IndexEntry| e.bbox.spec_overlaps(u);
    assert forall|e: IndexEntry| c.filter(f).count(e) == c.count(e) by {
        if c.count(e) > 0 {
            lemma_contains_implies_overlaps(u, e.bbox);
            assert(u.spec_overlaps(e.bbox));
            crate::bbox::lemma_overlaps_symmetric(u, e.bbox);
        }
    }
    assert(c.filter(f) =~= c);
}

/// The envelope of each entry of a batch.
pub open spec fn boxes_of(s: Seq<IndexEntry>) -> Seq<BBox> {
    s.map_values(|e: IndexEntry| e.bbox)
}

/// Building an index from a non-empty batch of well-formed entries and
/// then querying the folded union of their envelopes returns exactly the
/// batch: no entry missing, none duplicated.
pub proof fn lemma_build_query_roundtrip(entries: Seq<IndexEntry>)
    requires
        entries.len() > 0,
        forall|i: int| 0 <= i < entries.len() ==> (#[trigger] entries[i]).bbox.wf(),
    ensures
        ({
            let u = crate::gist::union_prefix(boxes_of(entries), entries.len() as int);
            entries.to_multiset().filter(|e: IndexEntry| e.bbox.spec_overlaps(u))
                == entries.to_multiset()
        }),
{
    let u = crate::gist::union_prefix(boxes_of(entries), entries.len() as int);
    let c = entries.to_multiset();
    assert forall|e: IndexEntry| c.count(e) > 0 implies (#[trigger] e.bbox).wf()
        && u.spec_contains(e.bbox) by {
        assert(entries.contains(e));
        let j = choose|j: int| 0 <= j < entries.len() && entries[j] == e;
        assert(boxes_of(entries)[j] == e.bbox);
        crate::gist::lemma_union_prefix_contains(boxes_of(entries), entries.len() as int, j);
    }
    lemma_query_union_roundtrip(c, u);
}

/// Removing an entry and inserting it back leaves the held entries as
/// they were, so every query answers as before.
pub proof fn lemma_remove_insert_identity(c: Multiset<IndexEntry>, e: IndexEntry)
    requires
        c.count(e) > 0,
    ensures
        c.remove(e).insert(e) == c,
{
    assert(c.remove(e).insert(e) =~= c);
}

/// An empty index answers every range query with nothing.
pub proof fn lemma_query_empty(u: BBox)
    ensures
        Multiset::<IndexEntry>::empty().filter(|e: IndexEntry| e.bbox.spec_overlaps(u))
            == Multiset::<IndexEntry>::empty(),
{
    let f = |e: IndexEntry| e.bbox.spec_overlaps(u);
    assert(Multiset::<IndexEntry>::empty().filter(f) =~= Multiset::<IndexEntry>::empty());
}

} // verus!
