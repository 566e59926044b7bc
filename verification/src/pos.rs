use vstd::prelude::*;
use vstd::arithmetic::div_mod::{
    lemma_fundamental_div_mod, lemma_fundamental_div_mod_converse,
    lemma_fundamental_div_mod_converse_div, lemma_mod_bound,
};
use crate::chunk::{ChunkPos, CHUNK_AREA, CHUNK_SIZE};
use crate::true_mod::true_mod;

verus! {

/// One coordinate of a cell inside a chunk.
pub type CellCord = u16;

/// Position of a cell inside its chunk, in cells from the lower-left
/// corner.
#[derive(Debug, Clone, Copy, PartialEq, Eq, Structural, PartialOrd, Ord, Hash)]
pub struct CellPos {
    pub x: CellCord,
    pub y: CellCord,
}

impl CellPos {
    /// Both coordinates lie inside the chunk.
    pub open spec fn wf(self) -> bool {
        self.x < CHUNK_SIZE && self.y < CHUNK_SIZE
    }

    /// The row-major linear index of this position.
    pub open spec fn spec_index(self) -> int {
        self.x + self.y * CHUNK_SIZE
    }

    /// The position that a row-major linear index decomposes to.
    pub open spec fn spec_from_index(index: int) -> CellPos {
        CellPos {
            x: (index % (CHUNK_SIZE as int)) as CellCord,
            y: (index / (CHUNK_SIZE as int)) as CellCord,
        }
    }

    pub fn new(x: CellCord, y: CellCord) -> (r: CellPos)
        requires
            x < CHUNK_SIZE,
            y < CHUNK_SIZE,
        ensures
            r.x == x,
            r.y == y,
            r.wf(),
    {
        CellPos { x, y }
    }

    pub fn from_index(index: usize) -> (r: CellPos)
        requires
            index < CHUNK_AREA,
        ensures
            r == CellPos::spec_from_index(index as int),
            r.wf(),
            r.spec_index() == index,
    {
        proof {
            lemma_index_round_trip(index as int);
        }
        CellPos { x: (index % CHUNK_SIZE) as CellCord, y: (index / CHUNK_SIZE) as CellCord }
    }

    pub fn to_index(&self) -> (r: usize)
        requires
            self.wf(),
        ensures
            r == self.spec_index(),
            r < CHUNK_AREA,
    {
        self.x as usize + self.y as usize * CHUNK_SIZE
    }
}

/// Decomposing a linear index to in-chunk coordinates and recomposing it
/// yields the index back, for every index inside the chunk.
pub proof fn lemma_index_round_trip(index: int)
    requires
        0 <= index < CHUNK_AREA,
    ensures
        CellPos::spec_from_index(index).wf(),
        CellPos::spec_from_index(index).spec_index() == index,
{
    let s = CHUNK_SIZE as int;
    lemma_fundamental_div_mod(index, s);
    lemma_mod_bound(index, s);
    assert(index / s < s) by (nonlinear_arith)
        requires index < s * s, 0 < s, 0 <= index,
    ;
    assert(0 <= index / s) by (nonlinear_arith)
        requires 0 <= index, 0 < s,
    ;
}

/// Composing in-chunk coordinates to a linear index and decomposing it
/// yields the same coordinates back, for every position inside the chunk.
pub proof fn lemma_cell_pos_round_trip(p: CellPos)
    requires
        p.wf(),
    ensures
        0 <= p.spec_index() < CHUNK_AREA,
        CellPos::spec_from_index(p.spec_index()) == p,
{
    let s = CHUNK_SIZE as int;
    let index = p.spec_index();
    assert(index < CHUNK_AREA) by (nonlinear_arith)
        requires index == p.x + p.y * s, p.x < s, p.y < s, 0 <= p.x, 0 <= p.y, s == 128,
    ;
    lemma_fundamental_div_mod_converse(index, s, p.y as int, p.x as int);
}

/// Position of a cell in the infinite world: the chunk that holds it and
/// its place inside that chunk.
#[derive(Debug, Clone, Copy, PartialEq, Eq, Structural, PartialOrd, Ord, Hash)]
pub struct GlobalCellPos {
    pub chunk: ChunkPos,
    pub cell: CellPos,
}

impl GlobalCellPos {
    pub open spec fn wf(self) -> bool {
        self.cell.wf()
    }

    /// The global x coordinate that this decomposition stands for.
    pub open spec fn spec_x(self) -> int {
        self.chunk.x * CHUNK_SIZE + self.cell.x
    }

    /// The global y coordinate that this decomposition stands for.
    pub open spec fn spec_y(self) -> int {
        self.chunk.y * CHUNK_SIZE + self.cell.y
    }

    /// Decompose global cell coordinates into a chunk coordinate and an
    /// in-chunk coordinate, rounding toward minus infinity on both axes.
    pub fn new(x: i32, y: i32) -> (r: GlobalCellPos)
        ensures
            r.wf(),
            r.spec_x() == x,
            r.spec_y() == y,
    {
        let (chunk_x, cell_x) = split_cord(x);
        let (chunk_y, cell_y) = split_cord(y);

        let chunk = ChunkPos::new(chunk_x, chunk_y);
        let cell = CellPos::new(cell_x as CellCord, cell_y as CellCord);

        GlobalCellPos { chunk, cell }
    }

    pub fn x(&self) -> (r: i32)
        requires
            self.wf(),
            i32::MIN <= self.spec_x() <= i32::MAX,
        ensures
            r == self.spec_x(),
    {
        proof {
            lemma_scaled_in_range(self.chunk.x as int, self.cell.x as int, self.spec_x());
        }
        self.chunk.x * CHUNK_SIZE as i32 + self.cell.x as i32
    }

    pub fn y(&self) -> (r: i32)
        requires
            self.wf(),
            i32::MIN <= self.spec_y() <= i32::MAX,
        ensures
            r == self.spec_y(),
    {
        proof {
            lemma_scaled_in_range(self.chunk.y as int, self.cell.y as int, self.spec_y());
        }
        self.chunk.y * CHUNK_SIZE as i32 + self.cell.y as i32
    }
}

/// A well-formed decomposition is unique: two decompositions that stand
/// for the same global coordinates are the same decomposition. Together
/// with the contract of `GlobalCellPos::new` this gives the coordinate
/// round trip both ways.
pub proof fn lemma_global_pos_round_trip(p: GlobalCellPos, q: GlobalCellPos)
    requires
        p.wf(),
        q.wf(),
        p.spec_x() == q.spec_x(),
        p.spec_y() == q.spec_y(),
    ensures
        p == q,
{
    let s = CHUNK_SIZE as int;
    lemma_fundamental_div_mod_converse(p.spec_x(), s, p.chunk.x as int, p.cell.x as int);
    lemma_fundamental_div_mod_converse(q.spec_x(), s, q.chunk.x as int, q.cell.x as int);
    lemma_fundamental_div_mod_converse(p.spec_y(), s, p.chunk.y as int, p.cell.y as int);
    lemma_fundamental_div_mod_converse(q.spec_y(), s, q.chunk.y as int, q.cell.y as int);
}

/// If a multiple of the chunk size plus a small offset lies in the i32
/// range, the multiple itself does too.
proof fn lemma_scaled_in_range(c: int, r: int, total: int)
    requires
        total == c * CHUNK_SIZE + r,
        0 <= r < CHUNK_SIZE,
        i32::MIN <= total <= i32::MAX,
    ensures
        i32::MIN <= c * CHUNK_SIZE <= i32::MAX,
{
    assert(c * CHUNK_SIZE == total - r);
    if c * (CHUNK_SIZE as int) < i32::MIN {
        assert(c < -16777216) by (nonlinear_arith)
            requires c * 128 < -0x8000_0000,
        ;
        assert(c * 128 <= (-16777217) * 128) by (nonlinear_arith)
            requires c <= -16777217,
        ;
        assert(false);
    }
}

/// Split one signed world coordinate into a chunk coordinate (floored
/// quotient) and an in-chunk offset (floor-style remainder).
fn split_cord(v: i32) -> (r: (i32, i32))
    ensures
        r.0 == v as int / CHUNK_SIZE as int,
        r.1 == v as int % CHUNK_SIZE as int,
        0 <= r.1 < CHUNK_SIZE,
{
    let s = CHUNK_SIZE as i32;
    proof {
        lemma_mod_bound(v as int, s as int);
    }
    if v < 0 {
        let t = (v + 1) / s;
        proof {
            let vi = v as int;
            let si = s as int;
            let f = vi / si;
            let r = vi % si;
            lemma_fundamental_div_mod(vi, si);
            assert(f < 0) by (nonlinear_arith)
                requires vi == si * f + r, vi < 0, 0 <= r < si, si == 128,
            ;
            assert(f >= -16777216) by (nonlinear_arith)
                requires vi == si * f + r, vi >= -0x8000_0000, 0 <= r < si, si == 128,
            ;
            // -(v + 1) decomposes with quotient -f - 1 and remainder si - 1 - r
            assert(-(vi + 1) == (-f - 1) * si + (si - 1 - r)) by (nonlinear_arith)
                requires vi == si * f + r,
            ;
            lemma_fundamental_div_mod_converse_div(-(vi + 1), si, -f - 1, si - 1 - r);
            assert(t == f + 1);
        }
        let q = t - 1;
        let m = true_mod(v, s);
        (q, m)
    } else {
        (v / s, v % s)
    }
}

} // verus!
