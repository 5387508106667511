//! The maintenance protocol a generic extensible-index framework needs
//! from a bounding-box key type: compress, decompress, union, penalty,
//! same, consistent, and picksplit.
//!
//! Given only these operations, an external index manager can build and
//! query a balanced tree over geometries without knowing their concrete
//! shape.

use vstd::prelude::*;
use vstd::seq_lib::lemma_multiset_commutative;
use crate::bbox::BBox;
use crate::bbox::lemma_contains_antisymmetric;
use crate::bbox::lemma_union_contains_both;
use crate::bbox::lemma_union_wf;
use crate::geometry::Geometry;
use crate::geometry::zero_box;

verus! {

/// The spatial predicates `consistent` can evaluate between an index key
/// and a query box. A closed set of kinds: the host maps its own operator
/// symbols onto these.
#[derive(Debug, Clone, Copy, PartialEq, Eq, Structural)]
pub enum PredicateKind {
    /// The boxes overlap (touching counts).
    Overlap,
    /// The key contains the query.
    Contains,
    /// The key is contained by the query.
    ContainedBy,
    /// The key is strictly left of the query.
    Left,
    /// The key is strictly right of the query.
    Right,
    /// The key is strictly below the query.
    Below,
    /// The key is strictly above the query.
    Above,
    /// The key equals the query component-wise.
    SameBox,
    /// The key does not extend to the right of the query.
    OverlapLeft,
    /// The key does not extend to the left of the query.
    OverlapRight,
    /// The key does not extend above the query.
    OverlapBelow,
    /// The key does not extend below the query.
    OverlapAbove,
}

/// What `consistent` answers for each predicate kind: a dispatch onto the
/// bounding-box algebra.
pub open spec fn spec_consistent(key: BBox, query: BBox, kind: PredicateKind) -> bool {
    match kind {
        PredicateKind::Overlap => key.spec_overlaps(query),
        PredicateKind::Contains => key.spec_contains(query),
        PredicateKind::ContainedBy => query.spec_contains(key),
        PredicateKind::Left => key.spec_left(query),
        PredicateKind::Right => key.spec_right(query),
        PredicateKind::Below => key.spec_below(query),
        PredicateKind::Above => key.spec_above(query),
        PredicateKind::SameBox => key == query,
        PredicateKind::OverlapLeft => key.spec_overleft(query),
        PredicateKind::OverlapRight => key.spec_overright(query),
        PredicateKind::OverlapBelow => key.spec_overbelow(query),
        PredicateKind::OverlapAbove => key.spec_overabove(query),
    }
}

/// The union of the boxes `s[0..n]`, folded left to right.
pub open spec fn union_prefix(s: Seq<BBox>, n: int) -> BBox
    recommends
        1 <= n <= s.len(),
    decreases n,
{
    if n <= 1 {
        s[0]
    } else {
        union_prefix(s, n - 1).spec_union(s[n - 1])
    }
}

/// Extracts the indexable key from a value being stored: its envelope.
pub fn geometry_gist_compress(geom: Geometry) -> (r: BBox)
    ensures
        r == geom.spec_envelope(),
{
    BBox::from_geometry(&geom)
}

/// The inverse of `geometry_gist_compress` at the key level. Keys are
/// stored as the boxes themselves, so this is the identity.
pub fn geometry_gist_decompress(bbox: BBox) -> (r: BBox)
    ensures
        r == bbox,
{
    bbox
}

/// Folds a node's keys into one covering box. An empty input yields the
/// degenerate zero box by convention; it is a placeholder, not the box
/// containing nothing.
pub fn geometry_gist_union(entries: Vec<BBox>) -> (r: BBox)
    ensures
        entries@.len() == 0 ==> r == zero_box(),
        entries@.len() > 0 ==> r == union_prefix(entries@, entries@.len() as int),
{
    if entries.len() == 0 {
        return BBox { min_x: 0, min_y: 0, max_x: 0, max_y: 0 };
    }
    let mut result = entries[0];
    let mut i: usize = 1;
    while i < entries.len()
        invariant
            1 <= i <= entries@.len(),
            result == union_prefix(entries@, i as int),
        decreases entries@.len() - i,
    {
        result = result.union(&entries[i]);
        i = i + 1;
    }
    result
}

/// The cost of inserting `new_entry` under a subtree covered by
/// `original`: the enlargement its envelope would suffer. The index
/// manager picks the subtree of least penalty.
pub fn geometry_gist_penalty(original: BBox, new_entry: BBox) -> (r: i64)
    requires
        original.wf(),
        new_entry.wf(),
    ensures
        r == original.spec_enlargement(new_entry),
{
    original.enlargement(&new_entry)
}

/// Exact component-wise equality of two keys, with no tolerance.
pub fn geometry_gist_same(a: BBox, b: BBox) -> (r: bool)
    ensures
        r == (a == b),
{
    a == b
}

/// Evaluates the named spatial predicate between an index key and a query
/// box.
pub fn geometry_gist_consistent(key: BBox, query: BBox, kind: PredicateKind) -> (r: bool)
    ensures
        r == spec_consistent(key, query, kind),
{
    match kind {
        PredicateKind::Overlap => key.overlaps(&query),
        PredicateKind::Contains => key.contains(&query),
        PredicateKind::ContainedBy => query.contains(&key),
        PredicateKind::Left => key.left(&query),
        PredicateKind::Right => key.right(&query),
        PredicateKind::Below => key.below(&query),
        PredicateKind::Above => key.above(&query),
        PredicateKind::SameBox => key == query,
        PredicateKind::OverlapLeft => !key.right(&query),
        PredicateKind::OverlapRight => !key.left(&query),
        PredicateKind::OverlapBelow => !key.above(&query),
        PredicateKind::OverlapAbove => !key.below(&query),
    }
}

/// The first half of an overflowing node's entries: everything before the
/// midpoint index. A list of one entry or none is handed back whole.
pub fn geometry_gist_picksplit_left(entries: Vec<BBox>) -> (r: Vec<BBox>)
    ensures
        entries@.len() <= 1 ==> r@ == entries@,
        entries@.len() >= 2 ==> r@ == entries@.take((entries@.len() / 2) as int),
{
    if entries.len() <= 1 {
        return entries;
    }
    let mid: usize = entries.len() / 2;
    let mut out: Vec<BBox> = Vec::new();
    let mut i: usize = 0;
    while i < mid
        invariant
            i <= mid,
            mid <= entries@.len(),
            out@ == entries@.take(i as int),
        decreases mid - i,
    {
        out.push(entries[i]);
        proof {
            assert(entries@.take(i + 1int) =~= entries@.take(i as int).push(entries@[i as int]));
        }
        i = i + 1;
    }
    out
}

/// The second half of an overflowing node's entries: everything from the
/// midpoint index on. A list of one entry or none yields an empty right
/// half.
pub fn geometry_gist_picksplit_right(entries: Vec<BBox>) -> (r: Vec<BBox>)
    ensures
        entries@.len() <= 1 ==> r@ == Seq::<BBox>::empty(),
        entries@.len() >= 2 ==> r@ == entries@.skip((entries@.len() / 2) as int),
{
    if entries.len() <= 1 {
        return Vec::new();
    }
    let mid: usize = entries.len() / 2;
    let n: usize = entries.len();
    let mut out: Vec<BBox> = Vec::new();
    let mut i: usize = mid;
    while i < n
        invariant
            mid <= i <= n,
            n == entries@.len(),
            out@ == entries@.subrange(mid as int, i as int),
        decreases n - i,
    {
        out.push(entries[i]);
        proof {
            assert(entries@.subrange(mid as int, i + 1int) =~= entries@.subrange(
                mid as int,
                i as int,
            ).push(entries@[i as int]));
        }
        i = i + 1;
    }
    out
}

/// Splitting a list of at least two entries at the midpoint yields two
/// non-empty groups which together hold exactly the input entries: none
/// dropped, none duplicated.
pub proof fn lemma_picksplit_partition(entries: Seq<BBox>)
    requires
        entries.len() >= 2,
    ensures
        entries.take((entries.len() / 2) as int).len() > 0,
        entries.skip((entries.len() / 2) as int).len() > 0,
        entries.take((entries.len() / 2) as int).to_multiset().add(
            entries.skip((entries.len() / 2) as int).to_multiset(),
        ) == entries.to_multiset(),
{
    let mid = (entries.len() / 2) as int;
    let a = entries.take(mid);
    let b = entries.skip(mid);
    assert(a + b =~= entries);
    lemma_multiset_commutative(a, b);
    assert(a.to_multiset().add(b.to_multiset()) =~= entries.to_multiset());
}

/// The folded union of a node's keys contains every one of them.
pub proof fn lemma_union_prefix_contains(s: Seq<BBox>, n: int, j: int)
    requires
        0 <= j < n <= s.len(),
    ensures
        union_prefix(s, n).spec_contains(s[j]),
    decreases n,
{
    if n <= 1 {
    } else {
        if j == n - 1 {
            lemma_union_contains_both(union_prefix(s, n - 1), s[n - 1]);
        } else {
            lemma_union_prefix_contains(s, n - 1, j);
            lemma_union_contains_both(union_prefix(s, n - 1), s[n - 1]);
            lemma_contains_transitive(union_prefix(s, n), union_prefix(s, n - 1), s[j]);
        }
    }
}

/// The folded union of well-formed keys is well formed.
pub proof fn lemma_union_prefix_wf(s: Seq<BBox>, n: int)
    requires
        1 <= n <= s.len(),
        forall|i: int| 0 <= i < s.len() ==> (#[trigger] s[i]).wf(),
    ensures
        union_prefix(s, n).wf(),
    decreases n,
{
    if n > 1 {
        lemma_union_prefix_wf(s, n - 1);
        lemma_union_wf(union_prefix(s, n - 1), s[n - 1]);
    }
}

/// Containment is transitive.
pub proof fn lemma_contains_transitive(a: BBox, b: BBox, c: BBox)
    requires
        a.spec_contains(b),
        b.spec_contains(c),
    ensures
        a.spec_contains(c),
{
}

/// Keys that answer yes to mutual containment under `consistent` are the
/// same key.
pub proof fn lemma_consistent_mutual_containment(key: BBox, query: BBox)
    ensures
        (spec_consistent(key, query, PredicateKind::Contains) && spec_consistent(
            key,
            query,
            PredicateKind::ContainedBy,
        )) <==> key == query,
{
    lemma_contains_antisymmetric(key, query);
}

} // verus!
