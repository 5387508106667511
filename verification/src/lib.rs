//! Spatial indexing over two-dimensional geometric objects.
//!
//! Coordinates are plain `i64` fixed-point units chosen by the caller (for
//! example micro-units); keeping them integral makes every predicate, area
//! and distance comparison exact.
//!
//! - `bbox`: the bounding-box algebra — overlap, containment, directional
//!   predicates, union, intersection, area and enlargement.
//! - `geometry`: the geometry model; every shape reduces to one envelope.
//! - `gist`: the compress/union/penalty/picksplit/consistent protocol an
//!   extensible-index framework drives.
//! - `spatial_index`: an R-tree-backed index with range, nearest-neighbor,
//!   k-nearest and within-distance queries.
//! - `vectorized_ops`: bulk helpers over batches of geometries.
//! - `utils`, `srid`: hexadecimal conversion and spatial-reference ids.

pub mod bbox;
pub mod functions;
pub mod geometry;
pub mod gist;
pub mod spatial_index;
pub mod srid;
mod store;
pub mod utils;
pub mod vectorized_ops;
