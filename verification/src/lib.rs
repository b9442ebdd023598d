//! A sparse, chunked tile-map world: absolute tile coordinates are split by
//! shift/mask into a chunk address plus a within-chunk cell, chunk storage is
//! materialized lazily on first write, and continuous positions are kept
//! canonical by rolling whole tiles out of a bounded sub-tile offset.
//!
//! All continuous quantities (sub-tile offsets, displacements) are carried as
//! integer world units, a fixed-point scale chosen by the map configuration
//! (`tile_side_in_units` world units span one tile side).

pub mod arena;
pub mod tile;
pub mod world;

use vstd::prelude::*;

verus! {

/// Bytes in `bytes` kibibytes.
pub fn kilobytes(bytes: usize) -> (r: usize)
    requires
        bytes * 1024 <= usize::MAX,
    ensures
        r == bytes * 1024,
{
    bytes * 1024
}

/// Bytes in `bytes` mebibytes.
pub fn megabytes(bytes: usize) -> (r: usize)
    requires
        bytes * 1024 * 1024 <= usize::MAX,
    ensures
        r == bytes * 1024 * 1024,
{
    1024 * kilobytes(bytes)
}

/// Bytes in `bytes` gibibytes.
pub fn gigabytes(bytes: usize) -> (r: usize)
    requires
        bytes * 1024 * 1024 * 1024 <= usize::MAX,
    ensures
        r == bytes * 1024 * 1024 * 1024,
{
    1024 * megabytes(bytes)
}

/// Bytes in `bytes` tebibytes.
pub fn terabytes(bytes: usize) -> (r: usize)
    requires
        bytes * 1024 * 1024 * 1024 * 1024 <= usize::MAX,
    ensures
        r == bytes * 1024 * 1024 * 1024 * 1024,
{
    1024 * gigabytes(bytes)
}

} // verus!
