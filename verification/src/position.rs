use vstd::prelude::*;
use vstd::arithmetic::div_mod::{
    lemma_fundamental_div_mod, lemma_fundamental_div_mod_converse_div,
    lemma_fundamental_div_mod_converse_mod, lemma_mod_bound,
};
use crate::chunk::CHUNK_SIZE;

verus! {

/// Side length, in chunks, of one scheduling group of the chunk grid.
pub const UPDATE_GROUP_SIDE: usize = 3;

/// A signed 2-D coordinate. The vertical component comes first so that the
/// derived ordering sorts rows before columns.
#[derive(Default, Debug, Clone, Copy, PartialEq, Eq, Structural, PartialOrd, Ord, Hash)]
pub struct Position {
    pub y: i32,
    pub x: i32,
}

impl Position {
    pub fn new(x: i32, y: i32) -> (r: Position)
        ensures
            r.x == x,
            r.y == y,
    {
        Position { x, y }
    }
}

/// An unsigned 2-D offset inside a region.
#[derive(Default, Debug, Clone, Copy, PartialEq, Eq, Structural, PartialOrd, Ord, Hash)]
pub struct RelativePosition {
    pub y: u32,
    pub x: u32,
}

/// Absolute position of a chunk in the world, in chunk units.
#[derive(Default, Debug, Clone, Copy, PartialEq, Eq, Structural, PartialOrd, Ord, Hash)]
pub struct ChunkPosition(pub Position);

impl ChunkPosition {
    pub fn new(x: i32, y: i32) -> (r: ChunkPosition)
        ensures
            r.0.x == x,
            r.0.y == y,
    {
        ChunkPosition(Position { x, y })
    }

    /// The world cell coordinate of this chunk's lower-left cell.
    pub fn to_cell_offset(self) -> (r: CellPosition)
        requires
            i32::MIN <= self.0.x * CHUNK_SIZE,
            self.0.x * CHUNK_SIZE <= i32::MAX,
            i32::MIN <= self.0.y * CHUNK_SIZE,
            self.0.y * CHUNK_SIZE <= i32::MAX,
        ensures
            r.0.x == self.0.x * CHUNK_SIZE,
            r.0.y == self.0.y * CHUNK_SIZE,
    {
        CellPosition(Position {
            x: self.0.x * CHUNK_SIZE as i32,
            y: self.0.y * CHUNK_SIZE as i32,
        })
    }

    /// The anchor, shifted by `group_shift`, of the scheduling group that
    /// this chunk belongs to.
    pub fn to_group_offset(self, group_shift: Position) -> (r: ChunkPosition)
        requires
            self.0.x - UPDATE_GROUP_SIDE >= i32::MIN,
            self.0.y - UPDATE_GROUP_SIDE >= i32::MIN,
            (self.0.x as int / UPDATE_GROUP_SIDE as int) * UPDATE_GROUP_SIDE + group_shift.x <= i32::MAX,
            i32::MIN <= (self.0.x as int / UPDATE_GROUP_SIDE as int) * UPDATE_GROUP_SIDE + group_shift.x,
            (self.0.y as int / UPDATE_GROUP_SIDE as int) * UPDATE_GROUP_SIDE + group_shift.y <= i32::MAX,
            i32::MIN <= (self.0.y as int / UPDATE_GROUP_SIDE as int) * UPDATE_GROUP_SIDE + group_shift.y,
        ensures
            r.0.x == (self.0.x as int / UPDATE_GROUP_SIDE as int) * UPDATE_GROUP_SIDE + group_shift.x,
            r.0.y == (self.0.y as int / UPDATE_GROUP_SIDE as int) * UPDATE_GROUP_SIDE + group_shift.y,
    {
        proof {
            lemma_div_bounds_small(self.0.x as int, UPDATE_GROUP_SIDE as int);
            lemma_div_bounds_small(self.0.y as int, UPDATE_GROUP_SIDE as int);
        }
        let pos = Position {
            x: downscale_cord(self.0.x, UPDATE_GROUP_SIDE) * UPDATE_GROUP_SIDE as i32,
            y: downscale_cord(self.0.y, UPDATE_GROUP_SIDE) * UPDATE_GROUP_SIDE as i32,
        };

        ChunkPosition(Position { x: pos.x + group_shift.x, y: pos.y + group_shift.y })
    }
}

/// The floored quotient times the divisor stays within one divisor of the
/// dividend, so downscaled coordinates never leave the machine range.
proof fn lemma_div_bounds_small(v: int, s: int)
    requires
        0 < s,
    ensures
        v - s < (v / s) * s <= v,
{
    let q = v / s;
    let m = v % s;
    lemma_fundamental_div_mod(v, s);
    lemma_mod_bound(v, s);
    assert(v - s < q * s <= v) by (nonlinear_arith)
        requires v == s * q + m, 0 <= m < s,
    ;
}

/// Position of a cell inside its chunk.
#[derive(Default, Debug, Clone, Copy, PartialEq, Eq, Structural, PartialOrd, Ord, Hash)]
pub struct InChunkCellPosition(pub RelativePosition);

impl InChunkCellPosition {
    pub fn new(x: u32, y: u32) -> (r: InChunkCellPosition)
        ensures
            r.0.x == x,
            r.0.y == y,
    {
        InChunkCellPosition(RelativePosition { x, y })
    }

    /// Row-major linear index of this cell inside its chunk.
    pub fn to_index(self) -> (r: usize)
        requires
            self.0.x < CHUNK_SIZE,
            self.0.y < CHUNK_SIZE,
        ensures
            r == self.0.y * CHUNK_SIZE + self.0.x,
            r < CHUNK_SIZE * CHUNK_SIZE,
    {
        crate::size::AreaSize::splat(CHUNK_SIZE).coords_to_index(self.0)
    }

    pub fn from_index(index: usize) -> (r: InChunkCellPosition)
        requires
            index < CHUNK_SIZE * CHUNK_SIZE,
        ensures
            r.0.x == index as int % CHUNK_SIZE as int,
            r.0.y == index as int / CHUNK_SIZE as int,
            r.0.x < CHUNK_SIZE,
            r.0.y < CHUNK_SIZE,
    {
        InChunkCellPosition(crate::size::AreaSize::splat(CHUNK_SIZE).index_to_coords(index))
    }

    pub fn to_absolute(self) -> (r: CellPosition)
        requires
            self.0.x <= i32::MAX,
            self.0.y <= i32::MAX,
        ensures
            r.0.x == self.0.x,
            r.0.y == self.0.y,
    {
        CellPosition(Position { x: self.0.x as i32, y: self.0.y as i32 })
    }
}

/// Absolute position of a cell in the world, in cell units.
#[derive(Default, Debug, Clone, Copy, PartialEq, Eq, Structural, PartialOrd, Ord, Hash)]
pub struct CellPosition(pub Position);

impl CellPosition {
    pub fn new(x: i32, y: i32) -> (r: CellPosition)
        ensures
            r.0.x == x,
            r.0.y == y,
    {
        CellPosition(Position { x, y })
    }

    /// The chunk that holds this cell.
    pub fn get_chunk_position(self) -> (r: ChunkPosition)
        requires
            self.0.x - CHUNK_SIZE >= i32::MIN,
            self.0.y - CHUNK_SIZE >= i32::MIN,
        ensures
            r.0.x == self.0.x as int / CHUNK_SIZE as int,
            r.0.y == self.0.y as int / CHUNK_SIZE as int,
    {
        ChunkPosition(Position {
            x: downscale_cord(self.0.x, CHUNK_SIZE),
            y: downscale_cord(self.0.y, CHUNK_SIZE),
        })
    }

    /// This cell's coordinates inside its chunk.
    pub fn get_in_chunk_pos(self) -> (r: InChunkCellPosition)
        ensures
            r.0.x == self.0.x as int % CHUNK_SIZE as int,
            r.0.y == self.0.y as int % CHUNK_SIZE as int,
            r.0.x < CHUNK_SIZE,
            r.0.y < CHUNK_SIZE,
    {
        proof {
            lemma_mod_bound(self.0.x as int, CHUNK_SIZE as int);
            lemma_mod_bound(self.0.y as int, CHUNK_SIZE as int);
        }
        InChunkCellPosition(RelativePosition {
            x: mod_cord(self.0.x, CHUNK_SIZE) as u32,
            y: mod_cord(self.0.y, CHUNK_SIZE) as u32,
        })
    }
}

/// Floored division of a coordinate by a region size: the index of the
/// region that contains the coordinate, correct for negative values too.
pub fn downscale_cord(v: i32, size: usize) -> (r: i32)
    requires
        0 < size <= 0x4000_0000,
        v - size >= i32::MIN,
    ensures
        r == v as int / size as int,
{
    let s = size as i32;
    if v >= 0 {
        v / s
    } else {
        let t = (v - s + 1) / s;
        proof {
            let vi = v as int;
            let si = s as int;
            let ui = (vi - si + 1);
            let qi = vi / si;
            let ri = vi % si;
            lemma_fundamental_div_mod(vi, si);
            lemma_mod_bound(vi, si);
            // -ui == (-qi) * si + (si - 1 - ri), with the remainder in range
            assert(-ui == (-qi) * si + (si - 1 - ri)) by (nonlinear_arith)
                requires ui == vi - si + 1, vi == si * qi + ri,
            ;
            lemma_fundamental_div_mod_converse_div(-ui, si, -qi, si - 1 - ri);
            // exec truncated division of the negative ui rounds toward zero
            assert(ui < 0);
            assert(t == -((-ui) / si));
        }
        t
    }
}

/// Floor-style remainder of a coordinate by a region size: the coordinate's
/// offset inside the region that contains it, in `[0, size)`.
pub fn mod_cord(v: i32, size: usize) -> (r: usize)
    requires
        0 < size <= 0x4000_0000,
    ensures
        r == v as int % size as int,
{
    let s = size as i32;
    let t = v % s;
    proof {
        let vi = v as int;
        let si = s as int;
        let ti = t as int;
        if v >= 0 {
            assert(ti == vi % si);
            lemma_mod_bound(vi, si);
            lemma_fundamental_div_mod_converse_mod(ti + si, si, 1, ti);
        } else {
            assert(ti == -((-vi) % si));
            let mi = (-vi) % si;
            lemma_fundamental_div_mod(-vi, si);
            let qi = (-vi) / si;
            lemma_mod_bound(-vi, si);
            if mi == 0 {
                assert(vi == (-qi) * si + 0) by (nonlinear_arith)
                    requires vi == -(si * qi + mi), mi == 0,
                ;
                lemma_fundamental_div_mod_converse_mod(vi, si, -qi, 0);
                lemma_fundamental_div_mod_converse_mod(ti + si, si, 1, 0);
            } else {
                assert(vi == (-qi - 1) * si + (si - mi)) by (nonlinear_arith)
                    requires vi == -(si * qi + mi),
                ;
                lemma_fundamental_div_mod_converse_mod(vi, si, -qi - 1, si - mi);
                lemma_fundamental_div_mod_converse_mod(ti + si, si, 0, si - mi);
            }
        }
    }
    ((t + s) as usize) % size
}

} // verus!
