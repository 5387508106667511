//! Trusted boundary around the R-tree of the `rstar` crate.
//!
//! The tree holds one element per index entry: an axis-aligned rectangle
//! over `[i64; 2]` corners carrying the entry id as its data. Verification
//! sees the store only through `store_contents`, the multiset of entries it
//! holds, and through the contracts of the wrappers below; each wrapper
//! states what the `rstar` source shows of the one call its body makes.
//!
//! Every wrapper requires well-formed boxes: rectangle corners are then
//! already ordered (so the stored envelope is exactly the entry's box), and
//! the tree's internal `i64` area and margin arithmetic stays in range.

use vstd::prelude::*;
use vstd::multiset::Multiset;
use crate::bbox::BBox;
use crate::spatial_index::IndexEntry;

verus! {

/// The R-tree holding the index entries, opaque to verification.
#[verifier::external_body]
pub struct EntryStore {
    tree: rstar::RTree<
        rstar::primitives::GeomWithData<rstar::primitives::Rectangle<[i64; 2]>, i64>,
    >,
}

/// The multiset of entries a store holds. Two entries are the same exactly
/// when id and box agree, the identity the index removes by.
pub uninterp spec fn store_contents(s: EntryStore) -> Multiset<IndexEntry>;

/// All entries of a store have well-formed boxes. Every wrapper that adds
/// entries requires it, so it holds of every store reachable from
/// `store_new` and `store_bulk_load`.
pub open spec fn store_wf(s: EntryStore) -> bool {
    forall|e: IndexEntry| store_contents(s).count(e) > 0 ==> (#[trigger] e.bbox).wf()
}

/// Relies on rstar::RTree::new: creates an empty tree.
#[verifier::external_body]
pub(crate) fn store_new() -> (r: EntryStore)
    ensures
        store_contents(r) == Multiset::<IndexEntry>::empty(),
{
    EntryStore { tree: rstar::RTree::new() }
}

/// Relies on rstar::RTree::bulk_load: builds a tree holding exactly the
/// given elements.
#[verifier::external_body]
pub(crate) fn store_bulk_load(entries: Vec<IndexEntry>) -> (r: EntryStore)
    requires
        forall|i: int| 0 <= i < entries@.len() ==> (#[trigger] entries@[i]).bbox.wf(),
    ensures
        store_contents(r) == entries@.to_multiset(),
{
    let items = entries.iter().map(|e: &IndexEntry| rstar::primitives::GeomWithData::new(
        rstar::primitives::Rectangle::from_corners([e.bbox.min_x, e.bbox.min_y], [e.bbox.max_x, e.bbox.max_y]),
        e.id,
    )).collect();
    EntryStore { tree: rstar::RTree::bulk_load(items) }
}

/// Relies on rstar::RTree::insert: adds the one element to the tree.
#[verifier::external_body]
pub(crate) fn store_insert(s: &mut EntryStore, e: IndexEntry)
    requires
        e.bbox.wf(),
    ensures
        store_contents(*final(s)) == store_contents(*old(s)).insert(e),
{
    s.tree.insert(rstar::primitives::GeomWithData::new(
        rstar::primitives::Rectangle::from_corners([e.bbox.min_x, e.bbox.min_y], [e.bbox.max_x, e.bbox.max_y]),
        e.id,
    ));
}

/// Relies on rstar::RTree::remove: removes one element equal to the given
/// one and returns whether there was any.
#[verifier::external_body]
pub(crate) fn store_remove(s: &mut EntryStore, e: IndexEntry) -> (r: bool)
    requires
        e.bbox.wf(),
    ensures
        store_contents(*old(s)).count(e) > 0 ==> r && store_contents(*final(s)) == store_contents(
            *old(s),
        ).remove(e),
        store_contents(*old(s)).count(e) == 0 ==> !r && store_contents(*final(s))
            == store_contents(*old(s)),
{
    let item = rstar::primitives::GeomWithData::new(
        rstar::primitives::Rectangle::from_corners([e.bbox.min_x, e.bbox.min_y], [e.bbox.max_x, e.bbox.max_y]),
        e.id,
    );
    s.tree.remove(&item).is_some()
}

/// Relies on rstar::RTree::locate_in_envelope_intersecting: yields exactly
/// the elements whose envelope intersects the given one, where touching
/// counts, in an unspecified order.
#[verifier::external_body]
pub(crate) fn store_locate_intersecting(s: &EntryStore, q: BBox) -> (r: Vec<IndexEntry>)
    requires
        store_wf(*s),
        q.wf(),
    ensures
        r@.to_multiset() == store_contents(*s).filter(
            |e: IndexEntry| e.bbox.spec_overlaps(q),
        ),
{
    let envelope = rstar::AABB::from_corners([q.min_x, q.min_y], [q.max_x, q.max_y]);
    s.tree.locate_in_envelope_intersecting(envelope).map(|it| IndexEntry {
        id: it.data,
        bbox: BBox {
            min_x: it.geom().lower()[0], min_y: it.geom().lower()[1],
            max_x: it.geom().upper()[0], max_y: it.geom().upper()[1],
        },
    }).collect()
}

/// Relies on rstar::RTree::size: the number of elements in the tree.
#[verifier::external_body]
pub(crate) fn store_size(s: &EntryStore) -> (r: usize)
    ensures
        r == store_contents(*s).len(),
{
    s.tree.size()
}

/// Relies on rstar::RTree::iter: yields every element of the tree once, in
/// an unspecified order.
#[verifier::external_body]
pub(crate) fn store_iter_all(s: &EntryStore) -> (r: Vec<IndexEntry>)
    ensures
        r@.to_multiset() == store_contents(*s),
{
    s.tree.iter().map(|it| IndexEntry {
        id: it.data,
        bbox: BBox {
            min_x: it.geom().lower()[0], min_y: it.geom().lower()[1],
            max_x: it.geom().upper()[0], max_y: it.geom().upper()[1],
        },
    }).collect()
}

} // verus!
