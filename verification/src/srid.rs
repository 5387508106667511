//! Common spatial reference system identifiers.

use vstd::prelude::*;

verus! {

/// Unknown or unspecified spatial reference system.
pub const UNKNOWN: i32 = 0;

/// World Geodetic System 1984, used by GPS.
pub const WGS84: i32 = 4326;

/// Spherical Mercator projection used by web mapping tiles.
pub const WEB_MERCATOR: i32 = 3857;

/// North American Datum 1983.
pub const NAD83: i32 = 4269;

} // verus!
