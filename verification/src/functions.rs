//! Free-function forms of the geometry constructors and accessors.

use vstd::prelude::*;
use crate::geometry::Geometry;

verus! {

/// Creates a point geometry with an unknown spatial reference system.
pub fn make_point(x: i64, y: i64) -> (r: Geometry)
    ensures
        r == Geometry::Point(x, y, 0i32),
{
    Geometry::Point(x, y, 0)
}

/// Creates a point geometry from three coordinates. The model is
/// two-dimensional, so the third coordinate is not kept.
pub fn make_point_z(x: i64, y: i64, _z: i64) -> (r: Geometry)
    ensures
        r == Geometry::Point(x, y, 0i32),
{
    Geometry::Point(x, y, 0)
}

/// The x coordinate of a point geometry.
pub fn geometry_x(geom: Geometry) -> (r: Option<i64>)
    ensures
        r == geom.spec_x(),
{
    geom.x()
}

/// The y coordinate of a point geometry.
pub fn geometry_y(geom: Geometry) -> (r: Option<i64>)
    ensures
        r == geom.spec_y(),
{
    geom.y()
}

/// The z coordinate of a geometry; the model is two-dimensional, so there
/// is none.
pub fn geometry_z(geom: Geometry) -> (r: Option<i64>)
    ensures
        r is None,
{
    geom.z()
}

/// The name of a geometry's kind, as an owned string.
pub fn geometry_type(geom: Geometry) -> (r: String)
    ensures
        r@ == geom.spec_type_name(),
{
    geom.geometry_type().to_owned()
}

/// The spatial reference id of a geometry.
pub fn geometry_srid(geom: Geometry) -> (r: i32)
    ensures
        r == geom.spec_srid(),
{
    geom.srid()
}

/// Replaces the spatial reference id of a geometry.
pub fn set_geometry_srid(geom: Geometry, srid: i32) -> (r: Geometry)
    ensures
        r == geom.spec_with_srid(srid),
{
    geom.with_srid(srid)
}

} // verus!
