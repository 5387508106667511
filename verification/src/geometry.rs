//! Geometry model over fixed-point coordinates.
//!
//! Every shape reduces to one envelope by min/max aggregation over its
//! coordinates; a collection's envelope folds its members' envelopes. An
//! empty shape gets the zero box, the convention the rest of the index
//! follows. Envelopes of polygons aggregate the exterior ring, which covers
//! every interior ring of a valid polygon.

use vstd::prelude::*;
use crate::bbox::BBox;
use crate::bbox::COORD_LIMIT;

verus! {

/// Exterior ring and interior rings (holes) of a polygon.
#[derive(Debug, Clone, PartialEq)]
pub struct PolygonRings {
    pub exterior: Vec<(i64, i64)>,
    pub interiors: Vec<Vec<(i64, i64)>>,
}

/// A geometric object: a point, a chain of points, a polygon, a multi-part
/// shape, or a collection of further geometries. The last field of every
/// variant is the spatial reference id.
#[derive(Debug)]
pub enum Geometry {
    Point(i64, i64, i32),
    LineString(Vec<(i64, i64)>, i32),
    Polygon(PolygonRings, i32),
    MultiPoint(Vec<(i64, i64)>, i32),
    MultiLineString(Vec<Vec<(i64, i64)>>, i32),
    MultiPolygon(Vec<PolygonRings>, i32),
    GeometryCollection(Vec<Geometry>, i32),
}

/// The degenerate box at the origin, standing in for the envelope of an
/// empty shape.
pub open spec fn zero_box() -> BBox {
    BBox { min_x: 0, min_y: 0, max_x: 0, max_y: 0 }
}

/// The degenerate box covering exactly one coordinate pair.
pub open spec fn point_box(p: (i64, i64)) -> BBox {
    BBox { min_x: p.0, min_y: p.1, max_x: p.0, max_y: p.1 }
}

/// Union of two optional envelopes; an absent side is neutral.
pub open spec fn opt_union(a: Option<BBox>, b: Option<BBox>) -> Option<BBox> {
    match (a, b) {
        (Option::None, other) => other,
        (other, Option::None) => other,
        (Option::Some(u), Option::Some(v)) => Option::Some(u.spec_union(v)),
    }
}

/// Envelope of the coordinates `s[i..]`, or `None` when there are none.
pub open spec fn pts_env_from(s: Seq<(i64, i64)>, i: int) -> Option<BBox>
    decreases s.len() - i,
{
    if i < 0 || i >= s.len() {
        Option::None
    } else {
        opt_union(Option::Some(point_box(s[i])), pts_env_from(s, i + 1))
    }
}

/// Envelope of all coordinates of the rings `rs[i..]`.
pub open spec fn rings_env_from(rs: Seq<Vec<(i64, i64)>>, i: int) -> Option<BBox>
    decreases rs.len() - i,
{
    if i < 0 || i >= rs.len() {
        Option::None
    } else {
        opt_union(pts_env_from(rs[i]@, 0), rings_env_from(rs, i + 1))
    }
}

/// Envelope of the exterior rings of the polygons `ps[i..]`.
pub open spec fn polys_env_from(ps: Seq<PolygonRings>, i: int) -> Option<BBox>
    decreases ps.len() - i,
{
    if i < 0 || i >= ps.len() {
        Option::None
    } else {
        opt_union(pts_env_from(ps[i].exterior@, 0), polys_env_from(ps, i + 1))
    }
}

/// Fold of the envelopes of the collection members `s[i..]`; every member
/// contributes its envelope, an empty member its zero box.
pub open spec fn coll_env_from(s: Seq<Geometry>, i: int) -> Option<BBox>
    decreases s, s.len() - i,
{
    if i < 0 || i >= s.len() {
        Option::None
    } else {
        opt_union(Option::Some(s[i].spec_envelope()), coll_env_from(s, i + 1))
    }
}

/// The envelope, with the zero box standing in for an empty shape.
pub open spec fn or_zero(o: Option<BBox>) -> BBox {
    match o {
        Option::None => zero_box(),
        Option::Some(b) => b,
    }
}

/// A coordinate pair within the supported range.
pub open spec fn coord_in_range(p: (i64, i64)) -> bool {
    -COORD_LIMIT <= p.0 <= COORD_LIMIT && -COORD_LIMIT <= p.1 <= COORD_LIMIT
}

/// All coordinates of a ring within the supported range.
pub open spec fn ring_in_range(s: Seq<(i64, i64)>) -> bool {
    forall|i: int| 0 <= i < s.len() ==> coord_in_range(#[trigger] s[i])
}

/// All rings of a sequence within the supported range.
pub open spec fn rings_in_range(rs: Seq<Vec<(i64, i64)>>) -> bool {
    forall|i: int| 0 <= i < rs.len() ==> ring_in_range(#[trigger] rs[i]@)
}

/// Exterior and interior rings of a polygon within the supported range.
pub open spec fn poly_in_range(p: PolygonRings) -> bool {
    ring_in_range(p.exterior@) && rings_in_range(p.interiors@)
}

impl Geometry {
    /// Every coordinate of the geometry lies within the supported range.
    pub open spec fn wf(self) -> bool
        decreases self,
    {
        match self {
            Geometry::Point(x, y, _) => coord_in_range((x, y)),
            Geometry::LineString(v, _) => ring_in_range(v@),
            Geometry::Polygon(p, _) => poly_in_range(p),
            Geometry::MultiPoint(v, _) => ring_in_range(v@),
            Geometry::MultiLineString(vs, _) => rings_in_range(vs@),
            Geometry::MultiPolygon(ps, _) => forall|i: int|
                0 <= i < ps@.len() ==> poly_in_range(#[trigger] ps@[i]),
            Geometry::GeometryCollection(gs, _) => forall|i: int|
                0 <= i < gs@.len() ==> (#[trigger] gs@[i]).wf(),
        }
    }

    /// The envelope of the geometry: min/max aggregation over its
    /// coordinates, the members' envelopes for a collection, the zero box
    /// for an empty shape.
    pub open spec fn spec_envelope(self) -> BBox
        decreases self,
    {
        match self {
            Geometry::Point(x, y, _) => BBox { min_x: x, min_y: y, max_x: x, max_y: y },
            Geometry::LineString(v, _) => or_zero(pts_env_from(v@, 0)),
            Geometry::Polygon(p, _) => or_zero(pts_env_from(p.exterior@, 0)),
            Geometry::MultiPoint(v, _) => or_zero(pts_env_from(v@, 0)),
            Geometry::MultiLineString(vs, _) => or_zero(rings_env_from(vs@, 0)),
            Geometry::MultiPolygon(ps, _) => or_zero(polys_env_from(ps@, 0)),
            Geometry::GeometryCollection(gs, _) => or_zero(coll_env_from(gs@, 0)),
        }
    }

    /// The spatial reference id stored in the geometry.
    pub open spec fn spec_srid(self) -> i32 {
        match self {
            Geometry::Point(_, _, s) => s,
            Geometry::LineString(_, s) => s,
            Geometry::Polygon(_, s) => s,
            Geometry::MultiPoint(_, s) => s,
            Geometry::MultiLineString(_, s) => s,
            Geometry::MultiPolygon(_, s) => s,
            Geometry::GeometryCollection(_, s) => s,
        }
    }

    /// The same geometry with its spatial reference id replaced.
    pub open spec fn spec_with_srid(self, srid: i32) -> Geometry {
        match self {
            Geometry::Point(x, y, _) => Geometry::Point(x, y, srid),
            Geometry::LineString(v, _) => Geometry::LineString(v, srid),
            Geometry::Polygon(p, _) => Geometry::Polygon(p, srid),
            Geometry::MultiPoint(v, _) => Geometry::MultiPoint(v, srid),
            Geometry::MultiLineString(vs, _) => Geometry::MultiLineString(vs, srid),
            Geometry::MultiPolygon(ps, _) => Geometry::MultiPolygon(ps, srid),
            Geometry::GeometryCollection(gs, _) => Geometry::GeometryCollection(gs, srid),
        }
    }

    /// The name of the geometry's kind.
    pub open spec fn spec_type_name(self) -> Seq<char> {
        match self {
            Geometry::Point(_, _, _) => "ST_Point"@,
            Geometry::LineString(_, _) => "ST_LineString"@,
            Geometry::Polygon(_, _) => "ST_Polygon"@,
            Geometry::MultiPoint(_, _) => "ST_MultiPoint"@,
            Geometry::MultiLineString(_, _) => "ST_MultiLineString"@,
            Geometry::MultiPolygon(_, _) => "ST_MultiPolygon"@,
            Geometry::GeometryCollection(_, _) => "ST_GeometryCollection"@,
        }
    }

    /// A shape without any constituent part. A point is never empty.
    pub open spec fn spec_is_empty(self) -> bool {
        match self {
            Geometry::Point(_, _, _) => false,
            Geometry::LineString(v, _) => v@.len() == 0,
            Geometry::Polygon(p, _) => p.exterior@.len() == 0,
            Geometry::MultiPoint(v, _) => v@.len() == 0,
            Geometry::MultiLineString(vs, _) => vs@.len() == 0,
            Geometry::MultiPolygon(ps, _) => ps@.len() == 0,
            Geometry::GeometryCollection(gs, _) => gs@.len() == 0,
        }
    }

    /// The x coordinate of a point geometry.
    pub open spec fn spec_x(self) -> Option<i64> {
        match self {
            Geometry::Point(x, _, _) => Option::Some(x),
            _ => Option::None,
        }
    }

    /// The y coordinate of a point geometry.
    pub open spec fn spec_y(self) -> Option<i64> {
        match self {
            Geometry::Point(_, y, _) => Option::Some(y),
            _ => Option::None,
        }
    }

    /// Reads the spatial reference id.
    pub fn srid(&self) -> (r: i32)
        ensures
            r == self.spec_srid(),
    {
        match self {
            Geometry::Point(_, _, s) => *s,
            Geometry::LineString(_, s) => *s,
            Geometry::Polygon(_, s) => *s,
            Geometry::MultiPoint(_, s) => *s,
            Geometry::MultiLineString(_, s) => *s,
            Geometry::MultiPolygon(_, s) => *s,
            Geometry::GeometryCollection(_, s) => *s,
        }
    }

    /// Replaces the spatial reference id, leaving the shape unchanged.
    pub fn with_srid(self, srid: i32) -> (r: Geometry)
        ensures
            r == self.spec_with_srid(srid),
    {
        match self {
            Geometry::Point(x, y, _) => Geometry::Point(x, y, srid),
            Geometry::LineString(v, _) => Geometry::LineString(v, srid),
            Geometry::Polygon(p, _) => Geometry::Polygon(p, srid),
            Geometry::MultiPoint(v, _) => Geometry::MultiPoint(v, srid),
            Geometry::MultiLineString(vs, _) => Geometry::MultiLineString(vs, srid),
            Geometry::MultiPolygon(ps, _) => Geometry::MultiPolygon(ps, srid),
            Geometry::GeometryCollection(gs, _) => Geometry::GeometryCollection(gs, srid),
        }
    }

    /// The name of the geometry's kind.
    pub fn geometry_type(&self) -> (r: &'static str)
        ensures
            r@ == self.spec_type_name(),
    {
        match self {
            Geometry::Point(_, _, _) => "ST_Point",
            Geometry::LineString(_, _) => "ST_LineString",
            Geometry::Polygon(_, _) => "ST_Polygon",
            Geometry::MultiPoint(_, _) => "ST_MultiPoint",
            Geometry::MultiLineString(_, _) => "ST_MultiLineString",
            Geometry::MultiPolygon(_, _) => "ST_MultiPolygon",
            Geometry::GeometryCollection(_, _) => "ST_GeometryCollection",
        }
    }

    /// Tests whether the shape has no constituent part.
    pub fn is_empty(&self) -> (r: bool)
        ensures
            r == self.spec_is_empty(),
    {
        match self {
            Geometry::Point(_, _, _) => false,
            Geometry::LineString(v, _) => v.len() == 0,
            Geometry::Polygon(p, _) => p.exterior.len() == 0,
            Geometry::MultiPoint(v, _) => v.len() == 0,
            Geometry::MultiLineString(vs, _) => vs.len() == 0,
            Geometry::MultiPolygon(ps, _) => ps.len() == 0,
            Geometry::GeometryCollection(gs, _) => gs.len() == 0,
        }
    }

    /// The x coordinate, for a point geometry.
    pub fn x(&self) -> (r: Option<i64>)
        ensures
            r == self.spec_x(),
    {
        match self {
            Geometry::Point(x, _, _) => Some(*x),
            _ => None,
        }
    }

    /// The y coordinate, for a point geometry.
    pub fn y(&self) -> (r: Option<i64>)
        ensures
            r == self.spec_y(),
    {
        match self {
            Geometry::Point(_, y, _) => Some(*y),
            _ => None,
        }
    }

    /// The z coordinate. The model is two-dimensional, so there is none.
    pub fn z(&self) -> (r: Option<i64>)
        ensures
            r is None,
    {
        None
    }

    /// Computes the envelope as `(min_x, min_y, max_x, max_y)`.
    pub fn bounding_box(&self) -> (r: (i64, i64, i64, i64))
        ensures
            ({
                let e = self.spec_envelope();
                r == (e.min_x, e.min_y, e.max_x, e.max_y)
            }),
        decreases *self,
    {
        match self {
            Geometry::Point(x, y, _) => (*x, *y, *x, *y),
            Geometry::LineString(v, _) => unpack(or_zero_exec(env_points(v))),
            Geometry::Polygon(p, _) => unpack(or_zero_exec(env_points(&p.exterior))),
            Geometry::MultiPoint(v, _) => unpack(or_zero_exec(env_points(v))),
            Geometry::MultiLineString(vs, _) => unpack(or_zero_exec(env_rings(vs))),
            Geometry::MultiPolygon(ps, _) => unpack(or_zero_exec(env_polys(ps))),
            Geometry::GeometryCollection(gs, _) => unpack(or_zero_exec(env_collection(gs))),
        }
    }
}

/// Turns a box into its corner tuple.
fn unpack(b: BBox) -> (r: (i64, i64, i64, i64))
    ensures
        r == (b.min_x, b.min_y, b.max_x, b.max_y),
{
    (b.min_x, b.min_y, b.max_x, b.max_y)
}

/// Replaces an absent envelope with the zero box.
fn or_zero_exec(o: Option<BBox>) -> (r: BBox)
    ensures
        r == or_zero(o),
{
    match o {
        Option::None => BBox { min_x: 0, min_y: 0, max_x: 0, max_y: 0 },
        Option::Some(b) => b,
    }
}

/// Union of two optional envelopes.
fn opt_union_exec(a: Option<BBox>, b: Option<BBox>) -> (r: Option<BBox>)
    ensures
        r == opt_union(a, b),
{
    match (a, b) {
        (Option::None, other) => other,
        (other, Option::None) => other,
        (Option::Some(u), Option::Some(v)) => Option::Some(u.union(&v)),
    }
}

/// Envelope of a sequence of coordinates, if there are any.
fn env_points(v: &Vec<(i64, i64)>) -> (r: Option<BBox>)
    ensures
        r == pts_env_from(v@, 0),
{
    let mut acc: Option<BBox> = None;
    let mut j: usize = v.len();
    while j > 0
        invariant
            j <= v@.len(),
            acc == pts_env_from(v@, j as int),
        decreases j,
    {
        j = j - 1;
        let p = v[j];
        let pb = BBox { min_x: p.0, min_y: p.1, max_x: p.0, max_y: p.1 };
        acc = opt_union_exec(Some(pb), acc);
    }
    acc
}

/// Envelope of all coordinates of a sequence of rings.
fn env_rings(rs: &Vec<Vec<(i64, i64)>>) -> (r: Option<BBox>)
    ensures
        r == rings_env_from(rs@, 0),
{
    let mut acc: Option<BBox> = None;
    let mut j: usize = rs.len();
    while j > 0
        invariant
            j <= rs@.len(),
            acc == rings_env_from(rs@, j as int),
        decreases j,
    {
        j = j - 1;
        let e = env_points(&rs[j]);
        acc = opt_union_exec(e, acc);
    }
    acc
}

/// Envelope of the exterior rings of a sequence of polygons.
fn env_polys(ps: &Vec<PolygonRings>) -> (r: Option<BBox>)
    ensures
        r == polys_env_from(ps@, 0),
{
    let mut acc: Option<BBox> = None;
    let mut j: usize = ps.len();
    while j > 0
        invariant
            j <= ps@.len(),
            acc == polys_env_from(ps@, j as int),
        decreases j,
    {
        j = j - 1;
        let e = env_points(&ps[j].exterior);
        acc = opt_union_exec(e, acc);
    }
    acc
}

/// Fold of the envelopes of a collection's members.
fn env_collection(gs: &Vec<Geometry>) -> (r: Option<BBox>)
    ensures
        r == coll_env_from(gs@, 0),
    decreases gs@,
{
    env_collection_from(gs, 0)
}

/// Fold of the envelopes of the members `gs[i..]`.
fn env_collection_from(gs: &Vec<Geometry>, i: usize) -> (r: Option<BBox>)
    ensures
        r == coll_env_from(gs@, i as int),
    decreases gs@, gs@.len() - i,
{
    if i >= gs.len() {
        None
    } else {
        let t = gs[i].bounding_box();
        let e = BBox { min_x: t.0, min_y: t.1, max_x: t.2, max_y: t.3 };
        let rest = env_collection_from(gs, i + 1);
        opt_union_exec(Some(e), rest)
    }
}

/// An optional envelope that is well formed when present.
pub open spec fn opt_wf(o: Option<BBox>) -> bool {
    match o {
        Option::None => true,
        Option::Some(b) => b.wf(),
    }
}

/// The union of two well-formed optional envelopes is well formed.
proof fn lemma_opt_union_wf(a: Option<BBox>, b: Option<BBox>)
    requires
        opt_wf(a),
        opt_wf(b),
    ensures
        opt_wf(opt_union(a, b)),
{
}

/// The envelope of in-range coordinates is well formed.
proof fn lemma_pts_env_wf(s: Seq<(i64, i64)>, i: int)
    requires
        ring_in_range(s),
    ensures
        opt_wf(pts_env_from(s, i)),
    decreases s.len() - i,
{
    if 0 <= i < s.len() {
        lemma_pts_env_wf(s, i + 1);
    }
}

/// The envelope of in-range rings is well formed.
proof fn lemma_rings_env_wf(rs: Seq<Vec<(i64, i64)>>, i: int)
    requires
        rings_in_range(rs),
    ensures
        opt_wf(rings_env_from(rs, i)),
    decreases rs.len() - i,
{
    if 0 <= i < rs.len() {
        lemma_pts_env_wf(rs[i]@, 0);
        lemma_rings_env_wf(rs, i + 1);
    }
}

/// The envelope of in-range polygons is well formed.
proof fn lemma_polys_env_wf(ps: Seq<PolygonRings>, i: int)
    requires
        forall|j: int| 0 <= j < ps.len() ==> poly_in_range(#[trigger] ps[j]),
    ensures
        opt_wf(polys_env_from(ps, i)),
    decreases ps.len() - i,
{
    if 0 <= i < ps.len() {
        lemma_pts_env_wf(ps[i].exterior@, 0);
        lemma_polys_env_wf(ps, i + 1);
    }
}

/// The folded envelope of well-formed members is well formed.
proof fn lemma_coll_env_wf(s: Seq<Geometry>, i: int)
    requires
        forall|j: int| 0 <= j < s.len() ==> (#[trigger] s[j]).wf(),
    ensures
        opt_wf(coll_env_from(s, i)),
    decreases s, s.len() - i,
{
    if 0 <= i < s.len() {
        lemma_envelope_wf(s[i]);
        lemma_coll_env_wf(s, i + 1);
    }
}

/// The envelope of a well-formed geometry is a well-formed box.
pub proof fn lemma_envelope_wf(g: Geometry)
    requires
        g.wf(),
    ensures
        g.spec_envelope().wf(),
    decreases g,
{
    match g {
        Geometry::Point(x, y, _) => {},
        Geometry::LineString(v, _) => lemma_pts_env_wf(v@, 0),
        Geometry::Polygon(p, _) => lemma_pts_env_wf(p.exterior@, 0),
        Geometry::MultiPoint(v, _) => lemma_pts_env_wf(v@, 0),
        Geometry::MultiLineString(vs, _) => lemma_rings_env_wf(vs@, 0),
        Geometry::MultiPolygon(ps, _) => lemma_polys_env_wf(ps@, 0),
        Geometry::GeometryCollection(gs, _) => lemma_coll_env_wf(gs@, 0),
    }
}

/// Checks that a coordinate pair is within the supported range.
fn coord_valid(p: (i64, i64)) -> (r: bool)
    ensures
        r == coord_in_range(p),
{
    -COORD_LIMIT <= p.0 && p.0 <= COORD_LIMIT && -COORD_LIMIT <= p.1 && p.1 <= COORD_LIMIT
}

/// Checks that every coordinate of a ring is within the supported range.
fn ring_valid(v: &Vec<(i64, i64)>) -> (r: bool)
    ensures
        r == ring_in_range(v@),
{
    let n: usize = v.len();
    let mut k: usize = 0;
    while k < n
        invariant
            k <= n,
            n == v@.len(),
            forall|j: int| 0 <= j < k ==> coord_in_range(#[trigger] v@[j]),
        decreases n - k,
    {
        if !coord_valid(v[k]) {
            return false;
        }
        k = k + 1;
    }
    true
}

/// Checks that every ring of a sequence is within the supported range.
fn rings_valid(rs: &Vec<Vec<(i64, i64)>>) -> (r: bool)
    ensures
        r == rings_in_range(rs@),
{
    let n: usize = rs.len();
    let mut k: usize = 0;
    while k < n
        invariant
            k <= n,
            n == rs@.len(),
            forall|j: int| 0 <= j < k ==> ring_in_range(#[trigger] rs@[j]@),
        decreases n - k,
    {
        if !ring_valid(&rs[k]) {
            return false;
        }
        k = k + 1;
    }
    true
}

/// Checks that every ring of a polygon is within the supported range.
fn poly_valid(p: &PolygonRings) -> (r: bool)
    ensures
        r == poly_in_range(*p),
{
    ring_valid(&p.exterior) && rings_valid(&p.interiors)
}

/// Checks that every polygon of a sequence is within the supported range.
fn polys_valid(ps: &Vec<PolygonRings>) -> (r: bool)
    ensures
        r == (forall|j: int| 0 <= j < ps@.len() ==> poly_in_range(#[trigger] ps@[j])),
{
    let n: usize = ps.len();
    let mut k: usize = 0;
    while k < n
        invariant
            k <= n,
            n == ps@.len(),
            forall|j: int| 0 <= j < k ==> poly_in_range(#[trigger] ps@[j]),
        decreases n - k,
    {
        if !poly_valid(&ps[k]) {
            return false;
        }
        k = k + 1;
    }
    true
}

/// Checks that the members `gs[i..]` of a collection are all well formed.
fn coll_valid_from(gs: &Vec<Geometry>, i: usize) -> (r: bool)
    requires
        i <= gs@.len(),
    ensures
        r == (forall|j: int| i <= j < gs@.len() ==> (#[trigger] gs@[j]).wf()),
    decreases gs@, gs@.len() - i,
{
    if i >= gs.len() {
        true
    } else {
        let head = gs[i].is_valid();
        if !head {
            return false;
        }
        coll_valid_from(gs, i + 1)
    }
}

impl Geometry {
    /// Checks that every coordinate of the geometry is within the
    /// supported range.
    pub fn is_valid(&self) -> (r: bool)
        ensures
            r == self.wf(),
        decreases *self,
    {
        match self {
            Geometry::Point(x, y, _) => coord_valid((*x, *y)),
            Geometry::LineString(v, _) => ring_valid(v),
            Geometry::Polygon(p, _) => poly_valid(p),
            Geometry::MultiPoint(v, _) => ring_valid(v),
            Geometry::MultiLineString(vs, _) => rings_valid(vs),
            Geometry::MultiPolygon(ps, _) => polys_valid(ps),
            Geometry::GeometryCollection(gs, _) => coll_valid_from(gs, 0),
        }
    }

    /// Tests whether this geometry's envelope overlaps another's.
    pub fn bbox_overlaps(&self, other: &Geometry) -> (r: bool)
        ensures
            r == self.spec_envelope().spec_overlaps(other.spec_envelope()),
    {
        let a = BBox::from_geometry(self);
        let b = BBox::from_geometry(other);
        a.overlaps(&b)
    }

    /// Tests whether this geometry's envelope contains another's.
    pub fn bbox_contains(&self, other: &Geometry) -> (r: bool)
        ensures
            r == self.spec_envelope().spec_contains(other.spec_envelope()),
    {
        let a = BBox::from_geometry(self);
        let b = BBox::from_geometry(other);
        a.contains(&b)
    }

    /// Tests whether this geometry's envelope is contained by another's.
    pub fn bbox_within(&self, other: &Geometry) -> (r: bool)
        ensures
            r == other.spec_envelope().spec_contains(self.spec_envelope()),
    {
        other.bbox_contains(self)
    }

    /// Tests whether this geometry's envelope is strictly left of
    /// another's.
    pub fn bbox_left(&self, other: &Geometry) -> (r: bool)
        ensures
            r == self.spec_envelope().spec_left(other.spec_envelope()),
    {
        let a = BBox::from_geometry(self);
        let b = BBox::from_geometry(other);
        a.left(&b)
    }

    /// Tests whether this geometry's envelope is strictly right of
    /// another's.
    pub fn bbox_right(&self, other: &Geometry) -> (r: bool)
        ensures
            r == self.spec_envelope().spec_right(other.spec_envelope()),
    {
        let a = BBox::from_geometry(self);
        let b = BBox::from_geometry(other);
        a.right(&b)
    }

    /// Tests whether this geometry's envelope is strictly below
    /// another's.
    pub fn bbox_below(&self, other: &Geometry) -> (r: bool)
        ensures
            r == self.spec_envelope().spec_below(other.spec_envelope()),
    {
        let a = BBox::from_geometry(self);
        let b = BBox::from_geometry(other);
        a.below(&b)
    }

    /// Tests whether this geometry's envelope is strictly above
    /// another's.
    pub fn bbox_above(&self, other: &Geometry) -> (r: bool)
        ensures
            r == self.spec_envelope().spec_above(other.spec_envelope()),
    {
        let a = BBox::from_geometry(self);
        let b = BBox::from_geometry(other);
        a.above(&b)
    }
}

impl BBox {
    /// The bounding box of a geometry, as a box value.
    pub fn from_geometry(geom: &Geometry) -> (r: BBox)
        ensures
            r == geom.spec_envelope(),
            geom.wf() ==> r.wf(),
    {
        proof {
            if geom.wf() {
                lemma_envelope_wf(*geom);
            }
        }
        let t = geom.bounding_box();
        BBox { min_x: t.0, min_y: t.1, max_x: t.2, max_y: t.3 }
    }
}

} // verus!
