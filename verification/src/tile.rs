//! The sparse, chunked tile map and its world positions.
//!
//! An absolute tile coordinate is split by a pure shift/mask into a chunk
//! coordinate (high bits) and a within-chunk cell (low bits); the `z`
//! coordinate is a discrete floor index and is never chunked. A chunk's tile
//! storage is materialized only on the first write into it, with every cell
//! defaulting to open floor. Reads outside the declared chunk grid, or into a
//! chunk never written, return the `TILE_UNKNOWN` sentinel rather than
//! failing, so the world edge behaves as "nothing here".
//!
//! A position pairs integer tile coordinates with a sub-tile offset in world
//! units (`tile_side_in_units` world units span one tile). A canonical offset
//! lies in `[-side / 2, side - side / 2)`; canonicalization rolls whole tiles
//! out of the offset into the tile coordinate, wrapping the coordinate
//! toroidally, so plain integration of motion never drifts the grid address.

use vstd::prelude::*;

verus! {

use vstd::arithmetic::div_mod::{
    lemma_basic_div,
    lemma_fundamental_div_mod,
    lemma_fundamental_div_mod_converse,
    lemma_mod_bound,
    lemma_mod_multiples_vanish,
    lemma_multiply_divide_lt,
    lemma_small_mod,
};
use vstd::pervasive::unreached;

/// Tile code of a cell that was never generated; also returned for reads
/// outside the chunk grid.
pub const TILE_UNKNOWN: u32 = 0;

/// Open, walkable floor; the default for every cell of a freshly touched
/// chunk.
pub const TILE_FLOOR: u32 = 1;

/// A wall: blocks movement.
pub const TILE_WALL: u32 = 2;

/// Stairs to the floor above; walkable.
pub const TILE_STAIRS_UP: u32 = 3;

/// Stairs to the floor below; walkable.
pub const TILE_STAIRS_DOWN: u32 = 4;

/// Metric displacement between two world positions, in world units.
#[derive(Clone, Copy, PartialEq, Eq, Structural, Debug)]
pub struct TileMapDifference {
    pub dx: i64,
    pub dy: i64,
    pub dz: i64,
}

/// A world position: integer absolute tile coordinates plus a sub-tile
/// offset from the tile's reference point, in world units.
#[derive(Clone, Copy, PartialEq, Eq, Structural, Debug)]
pub struct TileMapPosition {
    /// Absolute tile coordinates; the high bits address the chunk, the low
    /// bits the cell inside it.
    pub abs_tile_x: u32,
    pub abs_tile_y: u32,
    pub abs_tile_z: u32,
    /// Sub-tile offsets in world units, canonical when within
    /// `[-side / 2, side - side / 2)`.
    pub offset_x: i32,
    pub offset_y: i32,
}

/// An absolute tile coordinate decomposed into chunk address and
/// within-chunk cell.
#[derive(Clone, Copy, PartialEq, Eq, Structural, Debug)]
pub struct TileChunkPosition {
    pub tile_chunk_x: u32,
    pub tile_chunk_y: u32,
    pub tile_chunk_z: u32,

    pub rel_tile_x: u32,
    pub rel_tile_y: u32,
}

/// A square block of tiles: either still unmaterialized (no storage) or a
/// full `chunk_dim * chunk_dim` grid in row-major order.
pub struct TileChunk {
    pub tiles: Vec<u32>,
}

/// The sparse chunked world grid and its fixed configuration.
pub struct TileMap {
    /// Bits of an absolute coordinate that address the cell within a chunk.
    pub chunk_shift: u32,
    /// `chunk_dim - 1`: masks out the within-chunk bits.
    pub chunk_mask: u32,
    /// Tiles along one chunk side; a power of two.
    pub chunk_dim: u32,

    /// World units that span one tile side.
    pub tile_side_in_units: u32,

    pub tile_chunk_count_x: u32,
    pub tile_chunk_count_y: u32,
    pub tile_chunk_count_z: u32,

    /// Dense chunk array indexed by `(z, y, x)` chunk coordinates.
    pub tile_chunks: Vec<TileChunk>,
}

impl TileMap {
    /// Chunks the map addresses in all.
    pub open spec fn chunk_count(self) -> int {
        self.tile_chunk_count_x * self.tile_chunk_count_y * self.tile_chunk_count_z
    }

    /// The configuration invariant: the chunk side is the power of two named
    /// by `chunk_shift`, the mask selects exactly the within-chunk bits, and
    /// the tile side is a positive unit count a signed offset can hold.
    pub open spec fn config_wf(self) -> bool {
        &&& self.chunk_shift < 16
        &&& self.chunk_dim == 1u32 << self.chunk_shift
        &&& self.chunk_mask + 1 == self.chunk_dim
        &&& 1 <= self.tile_side_in_units <= i32::MAX
    }

    /// A chunk is either unmaterialized or a full square grid.
    pub open spec fn chunk_wf(self, chunk: TileChunk) -> bool {
        chunk.tiles.len() == 0 || chunk.tiles.len() == self.chunk_dim * self.chunk_dim
    }

    /// The map invariant: sound configuration, one slot per addressable
    /// chunk, every chunk well-formed.
    pub open spec fn wf(self) -> bool {
        &&& self.config_wf()
        &&& self.tile_chunks.len() == self.chunk_count()
        &&& forall|i: int|
            0 <= i < self.tile_chunks.len() ==> self.chunk_wf(#[trigger] self.tile_chunks@[i])
    }

    /// Two maps share every configuration field (only chunk contents may
    /// differ).
    pub open spec fn same_config(self, other: TileMap) -> bool {
        &&& self.chunk_shift == other.chunk_shift
        &&& self.chunk_mask == other.chunk_mask
        &&& self.chunk_dim == other.chunk_dim
        &&& self.tile_side_in_units == other.tile_side_in_units
        &&& self.tile_chunk_count_x == other.tile_chunk_count_x
        &&& self.tile_chunk_count_y == other.tile_chunk_count_y
        &&& self.tile_chunk_count_z == other.tile_chunk_count_z
    }

    /// Chunk coordinate of an absolute tile coordinate: its high bits.
    pub open spec fn spec_chunk_coord(self, abs: u32) -> u32 {
        abs >> self.chunk_shift
    }

    /// Within-chunk cell coordinate of an absolute tile coordinate: its low
    /// bits.
    pub open spec fn spec_rel_coord(self, abs: u32) -> u32 {
        abs & self.chunk_mask
    }

    /// Whether a chunk coordinate lies inside the declared chunk grid.
    pub open spec fn chunk_in_bounds(self, cx: u32, cy: u32, cz: u32) -> bool {
        &&& cx < self.tile_chunk_count_x
        &&& cy < self.tile_chunk_count_y
        &&& cz < self.tile_chunk_count_z
    }

    /// Row-major slot of a chunk coordinate in the dense chunk array.
    pub open spec fn spec_chunk_index(self, cx: u32, cy: u32, cz: u32) -> int {
        cz * (self.tile_chunk_count_y * self.tile_chunk_count_x) + cy * self.tile_chunk_count_x
            + cx
    }

    /// Row-major cell slot of a within-chunk coordinate pair.
    pub open spec fn spec_cell_index(self, rel_x: u32, rel_y: u32) -> int {
        rel_y * self.chunk_dim + rel_x
    }

    /// What a cell of one chunk reads as: the sentinel while the chunk is
    /// unmaterialized, else the stored code.
    pub open spec fn spec_chunk_cell(self, chunk: TileChunk, tile_x: u32, tile_y: u32) -> u32 {
        if chunk.tiles.len() == 0 {
            TILE_UNKNOWN
        } else {
            chunk.tiles@[self.spec_cell_index(tile_x, tile_y)]
        }
    }

    /// What an absolute tile coordinate reads as: the sentinel outside the
    /// chunk grid or in an unmaterialized chunk, else the stored code.
    pub open spec fn spec_tile_value_abs(self, x: u32, y: u32, z: u32) -> u32 {
        let cx = self.spec_chunk_coord(x);
        let cy = self.spec_chunk_coord(y);
        if self.chunk_in_bounds(cx, cy, z) {
            self.spec_chunk_cell(
                self.tile_chunks@[self.spec_chunk_index(cx, cy, z)],
                self.spec_rel_coord(x),
                self.spec_rel_coord(y),
            )
        } else {
            TILE_UNKNOWN
        }
    }

    /// Whether the chunk holding an absolute coordinate is in bounds but has
    /// never been written.
    pub open spec fn chunk_unfilled_at(self, x: u32, y: u32, z: u32) -> bool {
        let cx = self.spec_chunk_coord(x);
        let cy = self.spec_chunk_coord(y);
        &&& self.chunk_in_bounds(cx, cy, z)
        &&& self.tile_chunks@[self.spec_chunk_index(cx, cy, z)].tiles.len() == 0
    }

    /// Whether two absolute coordinates land in the same chunk.
    pub open spec fn same_chunk(self, x1: u32, y1: u32, z1: u32, x2: u32, y2: u32, z2: u32) -> bool {
        &&& self.spec_chunk_coord(x1) == self.spec_chunk_coord(x2)
        &&& self.spec_chunk_coord(y1) == self.spec_chunk_coord(y2)
        &&& z1 == z2
    }

    /// The position with both axes canonicalized; the floor index `z` is
    /// never touched by canonicalization.
    pub open spec fn spec_canonical_position(self, pos: TileMapPosition) -> TileMapPosition {
        let side = self.tile_side_in_units as int;
        TileMapPosition {
            abs_tile_x: canon_tile(side, pos.abs_tile_x as int, pos.offset_x as int) as u32,
            abs_tile_y: canon_tile(side, pos.abs_tile_y as int, pos.offset_y as int) as u32,
            abs_tile_z: pos.abs_tile_z,
            offset_x: canon_rel(side, pos.offset_x as int) as i32,
            offset_y: canon_rel(side, pos.offset_y as int) as i32,
        }
    }

    /// Both offsets of the position lie in canonical range.
    pub open spec fn position_canonical(self, pos: TileMapPosition) -> bool {
        let side = self.tile_side_in_units as int;
        &&& in_canonical_range(side, pos.offset_x as int)
        &&& in_canonical_range(side, pos.offset_y as int)
    }
}

/// The whole-tile count canonicalization rolls out of an offset: the
/// nearest tile, the tie at the positive half rolling to the next tile.
pub open spec fn canon_shift(side: int, rel: int) -> int {
    (rel + side / 2) / side
}

/// The offset left after rolling `canon_shift(side, rel)` whole tiles out
/// of `rel`.
pub open spec fn canon_rel(side: int, rel: int) -> int {
    rel - canon_shift(side, rel) * side
}

/// Tile coordinates live on a torus: stepping past either end of the `u32`
/// range comes back on the other side.
pub open spec fn wrap_tile(tile: int) -> int {
    tile % 0x1_0000_0000
}

/// The tile coordinate after canonicalization: shifted by the rolled-out
/// whole tiles, wrapped toroidally.
pub open spec fn canon_tile(side: int, tile: int, rel: int) -> int {
    wrap_tile(tile + canon_shift(side, rel))
}

/// A canonical offset stays within half a tile of the tile's reference
/// point: at least half a tile below it, strictly less than the remaining
/// half above it.
pub open spec fn in_canonical_range(side: int, rel: int) -> bool {
    -(side / 2) <= rel < side - side / 2
}

/// Metric displacement along one axis: whole tiles times the tile side,
/// plus the offset difference, in world units.
pub open spec fn spec_diff_axis(side: int, tile_a: int, tile_b: int, rel_a: int, rel_b: int) -> int {
    side * (tile_a - tile_b) + (rel_a - rel_b)
}

/// The canonical offset is the centered remainder, and it is canonical.
proof fn lemma_canon_basics(side: int, rel: int)
    requires
        1 <= side,
    ensures
        canon_rel(side, rel) == (rel + side / 2) % side - side / 2,
        in_canonical_range(side, canon_rel(side, rel)),
{
    lemma_fundamental_div_mod(rel + side / 2, side);
    lemma_mod_bound(rel + side / 2, side);
    assert(side * ((rel + side / 2) / side) == ((rel + side / 2) / side) * side)
        by (nonlinear_arith);
}

/// An offset already canonical rolls no tiles at all.
proof fn lemma_canon_of_canonical(side: int, rel: int)
    requires
        1 <= side,
        in_canonical_range(side, rel),
    ensures
        canon_shift(side, rel) == 0,
        canon_rel(side, rel) == rel,
{
    lemma_basic_div(rel + side / 2, side);
    assert(canon_shift(side, rel) * side == 0) by (nonlinear_arith)
        requires
            canon_shift(side, rel) == 0,
    ;
}

/// Tile codes that movement may stand on: open floor and both stair
/// transitions; walls and never-generated space block.
pub open spec fn is_walkable(value: u32) -> bool {
    value == TILE_FLOOR || value == TILE_STAIRS_UP || value == TILE_STAIRS_DOWN
}

/// Splitting an absolute coordinate by shift and mask loses nothing: the
/// chunk coordinate and the cell coordinate recompose to the original, both
/// by bitwise or and by addition of the shifted chunk part.
pub proof fn lemma_chunk_address_round_trip(tile_map: TileMap, abs: u32)
    requires
        tile_map.config_wf(),
    ensures
        (tile_map.spec_chunk_coord(abs) << tile_map.chunk_shift) | tile_map.spec_rel_coord(abs)
            == abs,
        (tile_map.spec_chunk_coord(abs) << tile_map.chunk_shift) + tile_map.spec_rel_coord(abs)
            == abs,
        tile_map.spec_rel_coord(abs) < tile_map.chunk_dim,
{
    let s = tile_map.chunk_shift;
    let m = tile_map.chunk_mask;
    assert(((abs >> s) << s) | (abs & m) == abs && ((abs >> s) << s) + (abs & m) == abs && (abs
        & m) <= m) by (bit_vector)
        requires
            s < 16 && m + 1 == (1u32 << s),
    ;
}

/// Distinct absolute coordinates in the same chunk occupy distinct cells.
proof fn lemma_cell_index_injective(tile_map: TileMap, x1: u32, y1: u32, x2: u32, y2: u32)
    requires
        tile_map.config_wf(),
        tile_map.spec_chunk_coord(x1) == tile_map.spec_chunk_coord(x2),
        tile_map.spec_chunk_coord(y1) == tile_map.spec_chunk_coord(y2),
        !(x1 == x2 && y1 == y2),
    ensures
        tile_map.spec_cell_index(tile_map.spec_rel_coord(x1), tile_map.spec_rel_coord(y1))
            != tile_map.spec_cell_index(tile_map.spec_rel_coord(x2), tile_map.spec_rel_coord(y2)),
{
    lemma_chunk_address_round_trip(tile_map, x1);
    lemma_chunk_address_round_trip(tile_map, y1);
    lemma_chunk_address_round_trip(tile_map, x2);
    lemma_chunk_address_round_trip(tile_map, y2);
    let dim = tile_map.chunk_dim as int;
    let rx1 = tile_map.spec_rel_coord(x1) as int;
    let ry1 = tile_map.spec_rel_coord(y1) as int;
    let rx2 = tile_map.spec_rel_coord(x2) as int;
    let ry2 = tile_map.spec_rel_coord(y2) as int;
    assert(!(rx1 == rx2 && ry1 == ry2));
    if ry1 * dim + rx1 == ry2 * dim + rx2 {
        let cell = ry1 * dim + rx1;
        lemma_fundamental_div_mod_converse(cell, dim, ry1, rx1);
        lemma_fundamental_div_mod_converse(cell, dim, ry2, rx2);
    }
}

/// A chunk coordinate in bounds has its slot inside the dense chunk array.
proof fn lemma_chunk_index_bound(tile_map: TileMap, cx: u32, cy: u32, cz: u32)
    requires
        tile_map.chunk_in_bounds(cx, cy, cz),
    ensures
        0 <= tile_map.spec_chunk_index(cx, cy, cz) < tile_map.chunk_count(),
        0 <= cy * tile_map.tile_chunk_count_x + cx < tile_map.tile_chunk_count_y
            * tile_map.tile_chunk_count_x,
        0 <= cz * (tile_map.tile_chunk_count_y * tile_map.tile_chunk_count_x),
{
    let ccx = tile_map.tile_chunk_count_x as int;
    let ccy = tile_map.tile_chunk_count_y as int;
    let ccz = tile_map.tile_chunk_count_z as int;
    assert(0 <= cy * ccx + cx < ccy * ccx && 0 <= cz * (ccy * ccx) && cz * (ccy * ccx) + (cy * ccx
        + cx) < ccx * ccy * ccz) by (nonlinear_arith)
        requires
            0 <= cx < ccx && 0 <= cy < ccy && 0 <= cz < ccz,
    ;
}

/// Distinct in-bounds chunk coordinates occupy distinct slots of the dense
/// chunk array.
proof fn lemma_chunk_index_injective(
    tile_map: TileMap,
    cx1: u32,
    cy1: u32,
    cz1: u32,
    cx2: u32,
    cy2: u32,
    cz2: u32,
)
    requires
        tile_map.chunk_in_bounds(cx1, cy1, cz1),
        tile_map.chunk_in_bounds(cx2, cy2, cz2),
        !(cx1 == cx2 && cy1 == cy2 && cz1 == cz2),
    ensures
        tile_map.spec_chunk_index(cx1, cy1, cz1) != tile_map.spec_chunk_index(cx2, cy2, cz2),
{
    let ccx = tile_map.tile_chunk_count_x as int;
    let ccy = tile_map.tile_chunk_count_y as int;
    let plane = ccy * ccx;
    let r1 = cy1 * ccx + cx1;
    let r2 = cy2 * ccx + cx2;
    lemma_chunk_index_bound(tile_map, cx1, cy1, cz1);
    lemma_chunk_index_bound(tile_map, cx2, cy2, cz2);
    if tile_map.spec_chunk_index(cx1, cy1, cz1) == tile_map.spec_chunk_index(cx2, cy2, cz2) {
        let index = tile_map.spec_chunk_index(cx1, cy1, cz1);
        lemma_fundamental_div_mod_converse(index, plane, cz1 as int, r1);
        lemma_fundamental_div_mod_converse(index, plane, cz2 as int, r2);
        lemma_fundamental_div_mod_converse(r1, ccx, cy1 as int, cx1 as int);
        lemma_fundamental_div_mod_converse(r2, ccx, cy2 as int, cx2 as int);
    }
}

/// Splits an absolute tile coordinate into chunk coordinates (high bits; `z`
/// passes through) and within-chunk cell coordinates (low bits). Total and
/// exact for every input.
pub fn get_chunk_position_for(
    tile_map: &TileMap,
    abs_tile_x: u32,
    abs_tile_y: u32,
    abs_tile_z: u32,
) -> (r: TileChunkPosition)
    requires
        tile_map.config_wf(),
    ensures
        r.tile_chunk_x == tile_map.spec_chunk_coord(abs_tile_x),
        r.tile_chunk_y == tile_map.spec_chunk_coord(abs_tile_y),
        r.tile_chunk_z == abs_tile_z,
        r.rel_tile_x == tile_map.spec_rel_coord(abs_tile_x),
        r.rel_tile_y == tile_map.spec_rel_coord(abs_tile_y),
{
    TileChunkPosition {
        tile_chunk_x: abs_tile_x >> tile_map.chunk_shift,
        tile_chunk_y: abs_tile_y >> tile_map.chunk_shift,
        tile_chunk_z: abs_tile_z,
        rel_tile_x: abs_tile_x & tile_map.chunk_mask,
        rel_tile_y: abs_tile_y & tile_map.chunk_mask,
    }
}

/// Slot of a chunk coordinate in the dense chunk array, or `None` outside
/// the declared extents.
fn get_chunk_index(tile_map: &TileMap, tile_chunk_x: u32, tile_chunk_y: u32, tile_chunk_z: u32) -> (r:
    Option<usize>)
    requires
        tile_map.wf(),
    ensures
        r is Some <==> tile_map.chunk_in_bounds(tile_chunk_x, tile_chunk_y, tile_chunk_z),
        r is Some ==> r.unwrap() == tile_map.spec_chunk_index(tile_chunk_x, tile_chunk_y, tile_chunk_z),
{
    if tile_chunk_x < tile_map.tile_chunk_count_x && tile_chunk_y < tile_map.tile_chunk_count_y
        && tile_chunk_z < tile_map.tile_chunk_count_z {
        proof {
            lemma_chunk_index_bound(*tile_map, tile_chunk_x, tile_chunk_y, tile_chunk_z);
            assert((tile_map.tile_chunk_count_y as int) * (tile_map.tile_chunk_count_x as int)
                < 0x1_0000_0000_0000_0000) by (nonlinear_arith)
                requires
                    tile_map.tile_chunk_count_y < 0x1_0000_0000 && tile_map.tile_chunk_count_x
                        < 0x1_0000_0000,
            ;
        }
        let plane: u64 = (tile_map.tile_chunk_count_y as u64) * (tile_map.tile_chunk_count_x as u64);
        let index: u64 = (tile_chunk_z as u64) * plane + ((tile_chunk_y as u64) * (
        tile_map.tile_chunk_count_x as u64) + (tile_chunk_x as u64));
        Some(index as usize)
    } else {
        None
    }
}

/// Borrows the chunk at a chunk coordinate, or `None` outside the declared
/// extents (the world edge is an edge condition, not an error).
pub fn get_tile_chunk(tile_map: &TileMap, tile_chunk_x: u32, tile_chunk_y: u32, tile_chunk_z: u32) -> (r:
    Option<&TileChunk>)
    requires
        tile_map.wf(),
    ensures
        r is Some <==> tile_map.chunk_in_bounds(tile_chunk_x, tile_chunk_y, tile_chunk_z),
        r is Some ==> *r.unwrap() == tile_map.tile_chunks@[tile_map.spec_chunk_index(
            tile_chunk_x,
            tile_chunk_y,
            tile_chunk_z,
        )],
{
    match get_chunk_index(tile_map, tile_chunk_x, tile_chunk_y, tile_chunk_z) {
        Some(index) => {
            proof {
                lemma_chunk_index_bound(*tile_map, tile_chunk_x, tile_chunk_y, tile_chunk_z);
            }
            Some(&tile_map.tile_chunks[index])
        },
        None => None,
    }
}

/// Reads one cell of a chunk: the sentinel while the chunk is
/// unmaterialized, else the stored code.
fn get_tile_value_rel(tile_map: &TileMap, tile_chunk: &TileChunk, tile_x: u32, tile_y: u32) -> (r:
    u32)
    requires
        tile_map.config_wf(),
        tile_map.chunk_wf(*tile_chunk),
        tile_x < tile_map.chunk_dim,
        tile_y < tile_map.chunk_dim,
    ensures
        r == tile_map.spec_chunk_cell(*tile_chunk, tile_x, tile_y),
{
    if tile_chunk.tiles.len() == 0 {
        TILE_UNKNOWN
    } else {
        proof {
            assert(0 <= tile_y * tile_map.chunk_dim + tile_x < tile_map.chunk_dim
                * tile_map.chunk_dim) by (nonlinear_arith)
                requires
                    tile_x < tile_map.chunk_dim && tile_y < tile_map.chunk_dim,
            ;
        }
        let cell: u64 = (tile_y as u64) * (tile_map.chunk_dim as u64) + (tile_x as u64);
        tile_chunk.tiles[cell as usize]
    }
}

/// Writes one cell of a materialized chunk.
pub fn set_tile_value_for_chunk(
    chunk_dim: u32,
    tile_chunk: &mut TileChunk,
    tile_x: u32,
    tile_y: u32,
    tile_value: u32,
)
    requires
        tile_x < chunk_dim,
        tile_y < chunk_dim,
        old(tile_chunk).tiles.len() == chunk_dim * chunk_dim,
    ensures
        final(tile_chunk).tiles@ == old(tile_chunk).tiles@.update(
            tile_y * chunk_dim + tile_x,
            tile_value,
        ),
{
    proof {
        assert(0 <= tile_y * chunk_dim + tile_x < chunk_dim * chunk_dim) by (nonlinear_arith)
            requires
                tile_x < chunk_dim && tile_y < chunk_dim,
        ;
    }
    let cell: u64 = (tile_y as u64) * (chunk_dim as u64) + (tile_x as u64);
    tile_chunk.tiles[cell as usize] = tile_value;
}

/// Reads the tile code at an absolute tile coordinate; total for every
/// input, with the sentinel for anything outside or never written.
pub fn get_tile_value_abs(tile_map: &TileMap, abs_tile_x: u32, abs_tile_y: u32, abs_tile_z: u32) -> (r:
    u32)
    requires
        tile_map.wf(),
    ensures
        r == tile_map.spec_tile_value_abs(abs_tile_x, abs_tile_y, abs_tile_z),
{
    let chunk_pos = get_chunk_position_for(tile_map, abs_tile_x, abs_tile_y, abs_tile_z);
    match get_tile_chunk(
        tile_map,
        chunk_pos.tile_chunk_x,
        chunk_pos.tile_chunk_y,
        chunk_pos.tile_chunk_z,
    ) {
        Some(tile_chunk) => {
            proof {
                lemma_chunk_address_round_trip(*tile_map, abs_tile_x);
                lemma_chunk_address_round_trip(*tile_map, abs_tile_y);
                lemma_chunk_index_bound(
                    *tile_map,
                    chunk_pos.tile_chunk_x,
                    chunk_pos.tile_chunk_y,
                    chunk_pos.tile_chunk_z,
                );
            }
            get_tile_value_rel(tile_map, tile_chunk, chunk_pos.rel_tile_x, chunk_pos.rel_tile_y)
        },
        None => TILE_UNKNOWN,
    }
}

/// Reads the tile code under a world position (its integer tile
/// coordinates; offsets play no part).
pub fn get_tile_value(tile_map: &TileMap, pos: &TileMapPosition) -> (r: u32)
    requires
        tile_map.wf(),
    ensures
        r == tile_map.spec_tile_value_abs(pos.abs_tile_x, pos.abs_tile_y, pos.abs_tile_z),
{
    get_tile_value_abs(tile_map, pos.abs_tile_x, pos.abs_tile_y, pos.abs_tile_z)
}

/// Whether movement may stand at a world position: its tile is open floor or
/// stairs. Walls, never-generated cells and the world edge block.
pub fn is_tile_map_point_empty(tile_map: &TileMap, pos: &TileMapPosition) -> (r: bool)
    requires
        tile_map.wf(),
    ensures
        r == is_walkable(tile_map.spec_tile_value_abs(pos.abs_tile_x, pos.abs_tile_y, pos.abs_tile_z)),
{
    let value = get_tile_value(tile_map, pos);
    value == TILE_FLOOR || value == TILE_STAIRS_UP || value == TILE_STAIRS_DOWN
}

/// Builds a map from a chunk shift, a tile side in world units and chunk
/// grid extents, with every chunk still unmaterialized: every tile of the
/// fresh map reads as the sentinel.
pub fn new_tile_map(
    chunk_shift: u32,
    tile_side_in_units: u32,
    tile_chunk_count_x: u32,
    tile_chunk_count_y: u32,
    tile_chunk_count_z: u32,
) -> (r: TileMap)
    requires
        chunk_shift < 16,
        1 <= tile_side_in_units <= i32::MAX,
        tile_chunk_count_x * tile_chunk_count_y * tile_chunk_count_z <= usize::MAX,
    ensures
        r.wf(),
        r.chunk_shift == chunk_shift,
        r.tile_side_in_units == tile_side_in_units,
        r.tile_chunk_count_x == tile_chunk_count_x,
        r.tile_chunk_count_y == tile_chunk_count_y,
        r.tile_chunk_count_z == tile_chunk_count_z,
        forall|i: int| 0 <= i < r.tile_chunks.len() ==> (#[trigger] r.tile_chunks@[i]).tiles.len()
            == 0,
        forall|x: u32, y: u32, z: u32| #[trigger] r.spec_tile_value_abs(x, y, z) == TILE_UNKNOWN,
{
    let chunk_dim: u32 = 1u32 << chunk_shift;
    proof {
        assert(1u32 << chunk_shift >= 1) by (bit_vector)
            requires
                chunk_shift < 16,
        ;
        assert((tile_chunk_count_x as int) * (tile_chunk_count_y as int) < 0x1_0000_0000_0000_0000)
            by (nonlinear_arith)
            requires
                tile_chunk_count_x < 0x1_0000_0000 && tile_chunk_count_y < 0x1_0000_0000,
        ;
        assert((tile_chunk_count_x as int) * (tile_chunk_count_y as int) * (tile_chunk_count_z as int)
            >= 0) by (nonlinear_arith);
    }
    let chunk_mask: u32 = chunk_dim - 1;
    let total: u64 = (tile_chunk_count_x as u64) * (tile_chunk_count_y as u64) * (tile_chunk_count_z
        as u64);
    let mut tile_chunks: Vec<TileChunk> = Vec::new();
    let mut i: u64 = 0;
    while i < total
        invariant
            i <= total,
            tile_chunks.len() == i,
            forall|j: int| 0 <= j < i ==> (#[trigger] tile_chunks@[j]).tiles.len() == 0,
        decreases total - i,
    {
        tile_chunks.push(TileChunk { tiles: Vec::new() });
        i = i + 1;
    }
    let r = TileMap {
        chunk_shift,
        chunk_mask,
        chunk_dim,
        tile_side_in_units,
        tile_chunk_count_x,
        tile_chunk_count_y,
        tile_chunk_count_z,
        tile_chunks,
    };
    proof {
        assert forall|x: u32, y: u32, z: u32| #[trigger] r.spec_tile_value_abs(x, y, z)
            == TILE_UNKNOWN by {
            let cx = r.spec_chunk_coord(x);
            let cy = r.spec_chunk_coord(y);
            if r.chunk_in_bounds(cx, cy, z) {
                lemma_chunk_index_bound(r, cx, cy, z);
            }
        }
    }
    r
}

/// Writes the tile code at an absolute tile coordinate. Addressing a chunk
/// outside the declared extents is a configuration error, ruled out by
/// contract rather than recovered from. On the first write into a chunk the
/// whole grid is materialized as open floor before the requested cell is
/// written, so every cell of a touched chunk reads a defined value: the
/// written cell holds the new code, every other cell of that chunk keeps its
/// old code (or open floor if the chunk was fresh), and every other chunk is
/// untouched.
pub fn set_tile_value(
    tile_map: &mut TileMap,
    abs_tile_x: u32,
    abs_tile_y: u32,
    abs_tile_z: u32,
    tile_value: u32,
)
    requires
        old(tile_map).wf(),
        old(tile_map).chunk_in_bounds(
            old(tile_map).spec_chunk_coord(abs_tile_x),
            old(tile_map).spec_chunk_coord(abs_tile_y),
            abs_tile_z,
        ),
    ensures
        final(tile_map).wf(),
        final(tile_map).same_config(*old(tile_map)),
        final(tile_map).spec_tile_value_abs(abs_tile_x, abs_tile_y, abs_tile_z) == tile_value,
        forall|x2: u32, y2: u32, z2: u32|
            !(x2 == abs_tile_x && y2 == abs_tile_y && z2 == abs_tile_z)
                ==> #[trigger] final(tile_map).spec_tile_value_abs(x2, y2, z2) == (if old(
                tile_map,
            ).same_chunk(x2, y2, z2, abs_tile_x, abs_tile_y, abs_tile_z) && old(
                tile_map,
            ).chunk_unfilled_at(abs_tile_x, abs_tile_y, abs_tile_z) {
                TILE_FLOOR
            } else {
                old(tile_map).spec_tile_value_abs(x2, y2, z2)
            }),
{
    let chunk_pos = get_chunk_position_for(tile_map, abs_tile_x, abs_tile_y, abs_tile_z);
    let chunk_dim = tile_map.chunk_dim;
    let index: usize = match get_chunk_index(
        tile_map,
        chunk_pos.tile_chunk_x,
        chunk_pos.tile_chunk_y,
        chunk_pos.tile_chunk_z,
    ) {
        Some(i) => i,
        None => unreached(),
    };
    proof {
        lemma_chunk_index_bound(
            *tile_map,
            chunk_pos.tile_chunk_x,
            chunk_pos.tile_chunk_y,
            chunk_pos.tile_chunk_z,
        );
        lemma_chunk_address_round_trip(*tile_map, abs_tile_x);
        lemma_chunk_address_round_trip(*tile_map, abs_tile_y);
        let s = tile_map.chunk_shift;
        assert(chunk_dim <= 0x8000u32) by (bit_vector)
            requires
                chunk_dim == 1u32 << s && s < 16,
        ;
        assert(chunk_dim * chunk_dim <= 0x4000_0000) by (nonlinear_arith)
            requires
                chunk_dim <= 0x8000u32,
        ;
    }
    if tile_map.tile_chunks[index].tiles.len() == 0 {
        let tile_count: u32 = chunk_dim * chunk_dim;
        let mut tiles: Vec<u32> = Vec::new();
        let mut i: u32 = 0;
        while i < tile_count
            invariant
                i <= tile_count,
                tiles.len() == i,
                forall|j: int| 0 <= j < i ==> tiles@[j] == TILE_FLOOR,
            decreases tile_count - i,
        {
            tiles.push(TILE_FLOOR);
            i = i + 1;
        }
        tile_map.tile_chunks[index] = TileChunk { tiles };
    }
    set_tile_value_for_chunk(
        chunk_dim,
        &mut tile_map.tile_chunks[index],
        chunk_pos.rel_tile_x,
        chunk_pos.rel_tile_y,
        tile_value,
    );
    proof {
        let m0 = *old(tile_map);
        let m1 = *tile_map;
        let cx = m0.spec_chunk_coord(abs_tile_x);
        let cy = m0.spec_chunk_coord(abs_tile_y);
        let cz = abs_tile_z;
        let slot = m0.spec_chunk_index(cx, cy, cz);
        let cell = m0.spec_cell_index(
            m0.spec_rel_coord(abs_tile_x),
            m0.spec_rel_coord(abs_tile_y),
        );
        assert(0 <= cell < chunk_dim * chunk_dim) by (nonlinear_arith)
            requires
                cell == m0.spec_rel_coord(abs_tile_y) * chunk_dim + m0.spec_rel_coord(abs_tile_x)
                    && m0.spec_rel_coord(abs_tile_x) < chunk_dim && m0.spec_rel_coord(abs_tile_y)
                    < chunk_dim,
        ;
        assert(m1.wf());
        assert(m1.spec_tile_value_abs(abs_tile_x, abs_tile_y, abs_tile_z) == tile_value);
        assert forall|x2: u32, y2: u32, z2: u32|
            !(x2 == abs_tile_x && y2 == abs_tile_y && z2 == abs_tile_z) implies #[trigger] m1.spec_tile_value_abs(
            x2,
            y2,
            z2,
        ) == (if m0.same_chunk(x2, y2, z2, abs_tile_x, abs_tile_y, abs_tile_z)
            && m0.chunk_unfilled_at(abs_tile_x, abs_tile_y, abs_tile_z) {
            TILE_FLOOR
        } else {
            m0.spec_tile_value_abs(x2, y2, z2)
        }) by {
            let cx2 = m0.spec_chunk_coord(x2);
            let cy2 = m0.spec_chunk_coord(y2);
            if m0.chunk_in_bounds(cx2, cy2, z2) {
                lemma_chunk_index_bound(m0, cx2, cy2, z2);
                if cx2 == cx && cy2 == cy && z2 == cz {
                    lemma_cell_index_injective(m0, x2, y2, abs_tile_x, abs_tile_y);
                    lemma_chunk_address_round_trip(m0, x2);
                    lemma_chunk_address_round_trip(m0, y2);
                    let cell2 = m0.spec_cell_index(
                        m0.spec_rel_coord(x2),
                        m0.spec_rel_coord(y2),
                    );
                    assert(0 <= cell2 < chunk_dim * chunk_dim) by (nonlinear_arith)
                        requires
                            cell2 == m0.spec_rel_coord(y2) * chunk_dim + m0.spec_rel_coord(x2)
                                && m0.spec_rel_coord(x2) < chunk_dim && m0.spec_rel_coord(y2)
                                < chunk_dim,
                    ;
                } else {
                    lemma_chunk_index_injective(m0, cx2, cy2, z2, cx, cy, cz);
                }
            }
        }
    }
}

/// Rolls whole tiles out of an offset after motion has pushed it out of
/// range: the nearest tile count moves from the offset into the tile
/// coordinate, which wraps toroidally. Afterwards the offset is canonical;
/// the metric quantity `side * tile + offset` is conserved up to the wrap
/// (`lemma_recanonicalize_conserves`).
pub fn recanonicalize_coord(tile_map: &TileMap, tile: &mut u32, tile_rel: &mut i32)
    requires
        tile_map.config_wf(),
    ensures
        *final(tile_rel) == canon_rel(tile_map.tile_side_in_units as int, *old(tile_rel) as int),
        *final(tile) == canon_tile(
            tile_map.tile_side_in_units as int,
            *old(tile) as int,
            *old(tile_rel) as int,
        ),
        in_canonical_range(tile_map.tile_side_in_units as int, *final(tile_rel) as int),
{
    let side: i64 = tile_map.tile_side_in_units as i64;
    let half: i64 = (tile_map.tile_side_in_units / 2) as i64;
    let t: i64 = (*tile_rel as i64) + half;
    proof {
        lemma_canon_basics(side as int, *tile_rel as int);
        lemma_fundamental_div_mod(t as int, side as int);
        lemma_mod_bound(t as int, side as int);
        let ti = t as int;
        let si = side as int;
        let q = ti / si;
        let rm = ti % si;
        assert(-0x2_0000_0000 <= q <= 0x2_0000_0000) by (nonlinear_arith)
            requires
                ti == q * si + rm,
                0 <= rm < si,
                1 <= si,
                -0x1_0000_0000 <= ti <= 0x1_0000_0000,
        ;
    }
    let shift: i64 = match t.checked_div_euclid(side) {
        Some(q) => q,
        None => unreached(),
    };
    let m: i64 = match t.checked_rem_euclid(side) {
        Some(r) => r,
        None => unreached(),
    };
    *tile_rel = (m - half) as i32;
    let w: u32 = if shift >= 0 {
        let s_mod: u64 = (shift as u64) % 0x1_0000_0000u64;
        proof {
            let mm = 0x1_0000_0000int;
            let tl = *old(tile) as int;
            lemma_fundamental_div_mod(shift as int, mm);
            lemma_mod_bound(shift as int, mm);
            let k = shift as int / mm;
            let sm = shift as int % mm;
            assert((tl + shift) % mm == (tl + sm) % mm) by {
                lemma_mod_multiples_vanish(k, tl + sm, mm);
            }
            if tl + sm < mm {
                lemma_small_mod((tl + sm) as nat, mm as nat);
            } else {
                lemma_mod_multiples_vanish(1, tl + sm - mm, mm);
                lemma_small_mod((tl + sm - mm) as nat, mm as nat);
            }
        }
        (*tile).wrapping_add(s_mod as u32)
    } else {
        let neg: i64 = -shift;
        let s_mod: u64 = (neg as u64) % 0x1_0000_0000u64;
        proof {
            let mm = 0x1_0000_0000int;
            let tl = *old(tile) as int;
            lemma_fundamental_div_mod(neg as int, mm);
            lemma_mod_bound(neg as int, mm);
            let k = neg as int / mm;
            let sm = neg as int % mm;
            assert((tl + shift) % mm == (tl - sm) % mm) by {
                lemma_mod_multiples_vanish(-k, tl - sm, mm);
            }
            if tl - sm >= 0 {
                lemma_small_mod((tl - sm) as nat, mm as nat);
            } else {
                lemma_mod_multiples_vanish(-1, tl - sm + mm, mm);
                lemma_small_mod((tl - sm + mm) as nat, mm as nat);
            }
        }
        (*tile).wrapping_sub(s_mod as u32)
    };
    *tile = w;
}

/// Canonicalizes the `x` and `y` axes of a position independently; `z` is a
/// discrete floor index and is not canonicalized.
pub fn recanonicalize_position(tile_map: &TileMap, pos: TileMapPosition) -> (r: TileMapPosition)
    requires
        tile_map.config_wf(),
    ensures
        r == tile_map.spec_canonical_position(pos),
        tile_map.position_canonical(r),
{
    let mut result = pos;
    recanonicalize_coord(tile_map, &mut result.abs_tile_x, &mut result.offset_x);
    recanonicalize_coord(tile_map, &mut result.abs_tile_y, &mut result.offset_y);
    result
}

/// Whether two positions address the same tile on the same floor; offsets
/// play no part.
pub fn are_on_same_tile(a: &TileMapPosition, b: &TileMapPosition) -> (r: bool)
    ensures
        r == (a.abs_tile_x == b.abs_tile_x && a.abs_tile_y == b.abs_tile_y && a.abs_tile_z
            == b.abs_tile_z),
{
    a.abs_tile_x == b.abs_tile_x && a.abs_tile_y == b.abs_tile_y && a.abs_tile_z == b.abs_tile_z
}

/// The product of a tile side and a whole-tile difference stays well inside
/// the signed 64-bit range.
proof fn lemma_axis_product_bound(side: int, d: int)
    by (nonlinear_arith)
    requires
        1 <= side <= 0x7fff_ffff,
        -0xffff_ffff <= d <= 0xffff_ffff,
    ensures
        -0x7fff_ffff_0000_0000 <= side * d <= 0x7fff_ffff_0000_0000,
{
}

/// Metric displacement `a - b` in world units: whole-tile differences times
/// the tile side plus the offset differences. This is the bridge from the
/// discrete grid to continuous space; camera-relative drawing positions are
/// derived through it, never from raw tile indices.
pub fn subtract(tile_map: &TileMap, a: &TileMapPosition, b: &TileMapPosition) -> (r:
    TileMapDifference)
    requires
        tile_map.config_wf(),
    ensures
        r.dx == spec_diff_axis(
            tile_map.tile_side_in_units as int,
            a.abs_tile_x as int,
            b.abs_tile_x as int,
            a.offset_x as int,
            b.offset_x as int,
        ),
        r.dy == spec_diff_axis(
            tile_map.tile_side_in_units as int,
            a.abs_tile_y as int,
            b.abs_tile_y as int,
            a.offset_y as int,
            b.offset_y as int,
        ),
        r.dz == (tile_map.tile_side_in_units as int) * (a.abs_tile_z - b.abs_tile_z),
{
    let side: i64 = tile_map.tile_side_in_units as i64;
    let d_tile_x: i64 = (a.abs_tile_x as i64) - (b.abs_tile_x as i64);
    let d_tile_y: i64 = (a.abs_tile_y as i64) - (b.abs_tile_y as i64);
    let d_tile_z: i64 = (a.abs_tile_z as i64) - (b.abs_tile_z as i64);
    proof {
        lemma_axis_product_bound(side as int, d_tile_x as int);
        lemma_axis_product_bound(side as int, d_tile_y as int);
        lemma_axis_product_bound(side as int, d_tile_z as int);
    }
    TileMapDifference {
        dx: side * d_tile_x + ((a.offset_x as i64) - (b.offset_x as i64)),
        dy: side * d_tile_y + ((a.offset_y as i64) - (b.offset_y as i64)),
        dz: side * d_tile_z,
    }
}

/// An absolute coordinate below `count` chunks' worth of tiles has its
/// chunk coordinate below `count`.
pub proof fn lemma_chunk_coord_bound(tile_map: TileMap, abs: u32, count: u32)
    requires
        tile_map.config_wf(),
        (abs as int) < (tile_map.chunk_dim as int) * (count as int),
    ensures
        tile_map.spec_chunk_coord(abs) < count,
{
    let s = tile_map.chunk_shift;
    let d = tile_map.chunk_dim;
    assert(abs >> s == abs / d) by (bit_vector)
        requires
            d == 1u32 << s && s < 16,
    ;
    lemma_multiply_divide_lt(abs as int, d as int, count as int);
}

/// Adding less than a full turn to an in-range coordinate wraps at most
/// once.
pub(crate) proof fn lemma_wrap_small_add(x: int, d: int)
    requires
        0 <= x < 0x1_0000_0000,
        0 <= d < 0x1_0000_0000,
    ensures
        wrap_tile(x + d) == if x + d < 0x1_0000_0000 {
            x + d
        } else {
            x + d - 0x1_0000_0000
        },
{
    if x + d < 0x1_0000_0000 {
        lemma_small_mod((x + d) as nat, 0x1_0000_0000nat);
    } else {
        lemma_mod_multiples_vanish(1, x + d - 0x1_0000_0000, 0x1_0000_0000);
        lemma_small_mod((x + d - 0x1_0000_0000) as nat, 0x1_0000_0000nat);
    }
}

/// Subtracting less than a full turn from an in-range coordinate wraps at
/// most once.
pub(crate) proof fn lemma_wrap_small_sub(x: int, d: int)
    requires
        0 <= x < 0x1_0000_0000,
        0 <= d < 0x1_0000_0000,
    ensures
        wrap_tile(x - d) == if x - d >= 0 {
            x - d
        } else {
            x - d + 0x1_0000_0000
        },
{
    if x - d >= 0 {
        lemma_small_mod((x - d) as nat, 0x1_0000_0000nat);
    } else {
        lemma_mod_multiples_vanish(-1, x - d + 0x1_0000_0000, 0x1_0000_0000);
        lemma_small_mod((x - d + 0x1_0000_0000) as nat, 0x1_0000_0000nat);
    }
}

/// Every tile of a chunk no write has ever touched reads as the sentinel.
pub proof fn lemma_unfilled_chunk_reads_unknown(tile_map: TileMap, x: u32, y: u32, z: u32)
    requires
        tile_map.wf(),
        tile_map.chunk_unfilled_at(x, y, z),
    ensures
        tile_map.spec_tile_value_abs(x, y, z) == TILE_UNKNOWN,
{
}

/// Canonicalizing a position twice yields what canonicalizing it once
/// yields: a canonical position is a fixed point of canonicalization.
pub proof fn lemma_recanonicalize_idempotent(tile_map: TileMap, pos: TileMapPosition)
    requires
        tile_map.config_wf(),
    ensures
        tile_map.spec_canonical_position(tile_map.spec_canonical_position(pos))
            == tile_map.spec_canonical_position(pos),
{
    let side = tile_map.tile_side_in_units as int;
    lemma_canon_basics(side, pos.offset_x as int);
    lemma_canon_basics(side, pos.offset_y as int);
    let p1 = tile_map.spec_canonical_position(pos);
    lemma_canon_of_canonical(side, p1.offset_x as int);
    lemma_canon_of_canonical(side, p1.offset_y as int);
    lemma_mod_bound(pos.abs_tile_x + canon_shift(side, pos.offset_x as int), 0x1_0000_0000);
    lemma_mod_bound(pos.abs_tile_y + canon_shift(side, pos.offset_y as int), 0x1_0000_0000);
    lemma_small_mod(p1.abs_tile_x as nat, 0x1_0000_0000nat);
    lemma_small_mod(p1.abs_tile_y as nat, 0x1_0000_0000nat);
}

/// Canonicalizing one axis conserves the metric quantity
/// `side * tile + offset`: exactly while the tile coordinate does not wrap,
/// and up to whole turns of the torus (`side * 2^32`) in general; only the
/// decomposition into whole tiles and sub-tile offset changes.
pub proof fn lemma_recanonicalize_conserves(side: int, tile: int, rel: int)
    requires
        1 <= side,
        0 <= tile < 0x1_0000_0000,
    ensures
        (side * canon_tile(side, tile, rel) + canon_rel(side, rel)) % (side * 0x1_0000_0000) == (
        side * tile + rel) % (side * 0x1_0000_0000),
        0 <= tile + canon_shift(side, rel) < 0x1_0000_0000 ==> side * canon_tile(side, tile, rel)
            + canon_rel(side, rel) == side * tile + rel,
{
    let mm = 0x1_0000_0000int;
    let s = canon_shift(side, rel);
    let w = canon_tile(side, tile, rel);
    lemma_fundamental_div_mod(tile + s, mm);
    let q = (tile + s) / mm;
    assert(w == tile + s - mm * q);
    assert(side * w + canon_rel(side, rel) == side * tile + rel - (side * mm) * q)
        by (nonlinear_arith)
        requires
            w == tile + s - mm * q,
            canon_rel(side, rel) == rel - s * side,
            mm == 0x1_0000_0000int,
    ;
    assert(side * mm > 0) by (nonlinear_arith)
        requires
            1 <= side,
            mm == 0x1_0000_0000int,
    ;
    lemma_mod_multiples_vanish(-q, side * tile + rel, side * mm);
    assert((side * mm) * (-q) + (side * tile + rel) == side * w + canon_rel(side, rel))
        by (nonlinear_arith)
        requires
            side * w + canon_rel(side, rel) == side * tile + rel - (side * mm) * q,
    ;
    if 0 <= tile + s < mm {
        lemma_small_mod((tile + s) as nat, mm as nat);
        assert(side * w + canon_rel(side, rel) == side * tile + rel) by (nonlinear_arith)
            requires
                w == tile + s,
                canon_rel(side, rel) == rel - s * side,
    ;
    }
}

/// Displacement symmetry: subtracting positions one way is the negation of
/// subtracting them the other way on every axis, and subtracting a position
/// from itself is zero on every axis.
pub proof fn lemma_subtract_antisymmetric(side: int, a: TileMapPosition, b: TileMapPosition)
    ensures
        spec_diff_axis(
            side,
            a.abs_tile_x as int,
            b.abs_tile_x as int,
            a.offset_x as int,
            b.offset_x as int,
        ) == -spec_diff_axis(
            side,
            b.abs_tile_x as int,
            a.abs_tile_x as int,
            b.offset_x as int,
            a.offset_x as int,
        ),
        spec_diff_axis(
            side,
            a.abs_tile_y as int,
            b.abs_tile_y as int,
            a.offset_y as int,
            b.offset_y as int,
        ) == -spec_diff_axis(
            side,
            b.abs_tile_y as int,
            a.abs_tile_y as int,
            b.offset_y as int,
            a.offset_y as int,
        ),
        side * (a.abs_tile_z - b.abs_tile_z) == -(side * (b.abs_tile_z - a.abs_tile_z)),
        spec_diff_axis(
            side,
            a.abs_tile_x as int,
            a.abs_tile_x as int,
            a.offset_x as int,
            a.offset_x as int,
        ) == 0,
        spec_diff_axis(
            side,
            a.abs_tile_y as int,
            a.abs_tile_y as int,
            a.offset_y as int,
            a.offset_y as int,
        ) == 0,
        side * (a.abs_tile_z - a.abs_tile_z) == 0,
{
    assert(side * (a.abs_tile_x - b.abs_tile_x) == -(side * (b.abs_tile_x - a.abs_tile_x)))
        by (nonlinear_arith);
    assert(side * (a.abs_tile_y - b.abs_tile_y) == -(side * (b.abs_tile_y - a.abs_tile_y)))
        by (nonlinear_arith);
    assert(side * (a.abs_tile_z - b.abs_tile_z) == -(side * (b.abs_tile_z - a.abs_tile_z)))
        by (nonlinear_arith);
    assert(side * (a.abs_tile_x - a.abs_tile_x) == 0) by (nonlinear_arith);
    assert(side * (a.abs_tile_y - a.abs_tile_y) == 0) by (nonlinear_arith);
    assert(side * (a.abs_tile_z - a.abs_tile_z) == 0) by (nonlinear_arith);
}

} // verus!
