use vstd::prelude::*;
use crate::cell::Cell;
use crate::config::CellsTemplate;
use crate::outside::random_u64;
use crate::pos::CellPos;
use crate::random::xorshift_step;

verus! {

pub const CHUNK_SIZE_LOG_2: usize = 7;

/// Side length of a chunk, in cells: `1 << CHUNK_SIZE_LOG_2`. A power of
/// two, so an update order mask can permute indices by XOR.
pub const CHUNK_SIZE: usize = 128;

/// Number of cells in one chunk: `CHUNK_SIZE * CHUNK_SIZE`.
pub const CHUNK_AREA: usize = 16384;

/// Signed address of a chunk in the infinite chunk grid.
#[derive(Clone, Copy, Debug, PartialEq, Eq, Structural, PartialOrd, Ord, Hash)]
pub struct ChunkPos {
    pub x: i32,
    pub y: i32,
}

impl ChunkPos {
    pub fn new(x: i32, y: i32) -> (r: ChunkPos)
        ensures
            r.x == x,
            r.y == y,
    {
        ChunkPos { x, y }
    }

    pub fn left(self) -> (r: ChunkPos)
        requires
            self.x > i32::MIN,
        ensures
            r.x == self.x - 1,
            r.y == self.y,
    {
        ChunkPos::new(self.x - 1, self.y)
    }

    pub fn right(self) -> (r: ChunkPos)
        requires
            self.x < i32::MAX,
        ensures
            r.x == self.x + 1,
            r.y == self.y,
    {
        ChunkPos::new(self.x + 1, self.y)
    }

    pub fn top(self) -> (r: ChunkPos)
        requires
            self.y < i32::MAX,
        ensures
            r.x == self.x,
            r.y == self.y + 1,
    {
        ChunkPos::new(self.x, self.y + 1)
    }

    pub fn bottom(self) -> (r: ChunkPos)
        requires
            self.y > i32::MIN,
        ensures
            r.x == self.x,
            r.y == self.y - 1,
    {
        ChunkPos::new(self.x, self.y - 1)
    }

    pub fn left_top(self) -> (r: ChunkPos)
        requires
            self.x > i32::MIN,
            self.y < i32::MAX,
        ensures
            r.x == self.x - 1,
            r.y == self.y + 1,
    {
        ChunkPos::new(self.x - 1, self.y + 1)
    }

    pub fn right_top(self) -> (r: ChunkPos)
        requires
            self.x < i32::MAX,
            self.y < i32::MAX,
        ensures
            r.x == self.x + 1,
            r.y == self.y + 1,
    {
        ChunkPos::new(self.x + 1, self.y + 1)
    }

    pub fn left_bottom(self) -> (r: ChunkPos)
        requires
            self.x > i32::MIN,
            self.y > i32::MIN,
        ensures
            r.x == self.x - 1,
            r.y == self.y - 1,
    {
        ChunkPos::new(self.x - 1, self.y - 1)
    }

    pub fn right_bottom(self) -> (r: ChunkPos)
        requires
            self.x < i32::MAX,
            self.y > i32::MIN,
        ensures
            r.x == self.x + 1,
            r.y == self.y - 1,
    {
        ChunkPos::new(self.x + 1, self.y - 1)
    }
}

/// A fixed-size square tile of the world: one cell per slot, one private
/// 64-bit random state per slot, and the two scheduling flags.
#[derive(Debug)]
pub struct Chunk {
    data: Vec<Cell>,
    next_random: Vec<u64>,
    should_update: bool,
    should_redraw: bool,
}

impl Chunk {
    /// Both parallel arrays hold exactly one entry per cell of the chunk.
    pub open spec fn wf(self) -> bool {
        &&& self.spec_data().len() == CHUNK_AREA
        &&& self.spec_rng().len() == CHUNK_AREA
    }

    pub closed spec fn spec_data(self) -> Seq<Cell> {
        self.data@
    }

    pub closed spec fn spec_rng(self) -> Seq<u64> {
        self.next_random@
    }

    pub closed spec fn spec_should_update(self) -> bool {
        self.should_update
    }

    pub closed spec fn spec_should_redraw(self) -> bool {
        self.should_redraw
    }

    /// A fresh chunk: every cell initialized to the catalog's first
    /// material, every per-cell random state freshly seeded, both flags
    /// clear.
    pub fn new(cells_template: &CellsTemplate) -> (r: Chunk)
        requires
            cells_template.cells@.len() > 0,
        ensures
            r.wf(),
            forall|i: int|
                0 <= i < CHUNK_AREA ==> r.spec_data()[i]
                    == cells_template.cells@[0].spec_init(),
            !r.spec_should_update(),
            !r.spec_should_redraw(),
    {
        let mut next_random: Vec<u64> = Vec::with_capacity(CHUNK_AREA);
        let mut i: usize = 0;
        while i < CHUNK_AREA
            invariant
                i <= CHUNK_AREA,
                next_random@.len() == i,
            decreases CHUNK_AREA - i,
        {
            next_random.push(random_u64());
            i += 1;
        }

        let init_cell = cells_template.cells[0].init();
        let mut data: Vec<Cell> = Vec::with_capacity(CHUNK_AREA);
        let mut j: usize = 0;
        while j < CHUNK_AREA
            invariant
                j <= CHUNK_AREA,
                data@.len() == j,
                forall|k: int| 0 <= k < j ==> data@[k] == init_cell,
            decreases CHUNK_AREA - j,
        {
            data.push(init_cell);
            j += 1;
        }

        Chunk { data, next_random, should_update: false, should_redraw: false }
    }

    pub fn set_should_update(&mut self, should_update: bool)
        ensures
            final(self).spec_should_update() == should_update,
            final(self).spec_data() == old(self).spec_data(),
            final(self).spec_rng() == old(self).spec_rng(),
            final(self).spec_should_redraw() == old(self).spec_should_redraw(),
            final(self).wf() == old(self).wf(),
    {
        self.should_update = should_update;
    }

    pub fn should_update(&self) -> (r: bool)
        ensures
            r == self.spec_should_update(),
    {
        self.should_update
    }

    /// Whether activity in this chunk must wake its neighbours next pass.
    pub fn should_update_neighbor(&self) -> (r: bool)
        ensures
            r == self.spec_should_update(),
    {
        self.should_update
    }

    pub fn set_should_redraw(&mut self, should_redraw: bool)
        ensures
            final(self).spec_should_redraw() == should_redraw,
            final(self).spec_data() == old(self).spec_data(),
            final(self).spec_rng() == old(self).spec_rng(),
            final(self).spec_should_update() == old(self).spec_should_update(),
            final(self).wf() == old(self).wf(),
    {
        self.should_redraw = should_redraw;
    }

    pub fn should_redraw(&self) -> (r: bool)
        ensures
            r == self.spec_should_redraw(),
    {
        self.should_redraw
    }

    /// Advance the private random state of one cell and return the new
    /// value. No other state of the chunk is touched.
    pub fn get_random_value(&mut self, index: usize) -> (r: u64)
        requires
            old(self).wf(),
            index < CHUNK_AREA,
        ensures
            final(self).wf(),
            r == xorshift_step(old(self).spec_rng()[index as int]),
            final(self).spec_rng() == old(self).spec_rng().update(
                index as int,
                xorshift_step(old(self).spec_rng()[index as int]),
            ),
            final(self).spec_data() == old(self).spec_data(),
            final(self).spec_should_update() == old(self).spec_should_update(),
            final(self).spec_should_redraw() == old(self).spec_should_redraw(),
    {
        let mut x = self.next_random[index];

        x ^= x << 13;
        x ^= x >> 7;
        x ^= x << 17;

        self.next_random[index] = x;
        x
    }

    pub fn get_cell(&self, pos: CellPos) -> (r: Cell)
        requires
            self.wf(),
            pos.wf(),
        ensures
            r == self.spec_data()[pos.spec_index()],
    {
        self.data[pos.to_index()]
    }

    pub fn set_cell(&mut self, pos: CellPos, cell: Cell)
        requires
            old(self).wf(),
            pos.wf(),
        ensures
            final(self).wf(),
            final(self).spec_data() == old(self).spec_data().update(pos.spec_index(), cell),
            final(self).spec_rng() == old(self).spec_rng(),
            final(self).spec_should_update() == old(self).spec_should_update(),
            final(self).spec_should_redraw() == old(self).spec_should_redraw(),
    {
        let index = pos.to_index();
        self.data[index] = cell;
    }

    /// Write one cell with change detection: a write of an equal value is
    /// a no-op for scheduling, any other write raises both flags.
    pub fn set_by_index(&mut self, index: usize, cell: Cell)
        requires
            old(self).wf(),
            index < CHUNK_AREA,
        ensures
            final(self).wf(),
            final(self).spec_data() == old(self).spec_data().update(index as int, cell),
            final(self).spec_rng() == old(self).spec_rng(),
            old(self).spec_data()[index as int] == cell ==> *final(self) == *old(self),
            old(self).spec_data()[index as int] != cell ==> final(self).spec_should_update()
                && final(self).spec_should_redraw(),
    {
        if !(self.data[index] == cell) {
            self.data[index] = cell;
            self.should_redraw = true;
            self.should_update = true;
        } else {
            proof {
                assert(old(self).spec_data().update(index as int, cell) =~= old(
                    self,
                ).spec_data());
            }
        }
    }

    /// Exchange two cells of this chunk.
    pub fn swap_by_index(&mut self, a_index: usize, b_index: usize)
        requires
            old(self).wf(),
            a_index < CHUNK_AREA,
            b_index < CHUNK_AREA,
        ensures
            final(self).wf(),
            final(self).spec_data() == old(self).spec_data().update(
                a_index as int,
                old(self).spec_data()[b_index as int],
            ).update(b_index as int, old(self).spec_data()[a_index as int]),
            final(self).spec_rng() == old(self).spec_rng(),
            final(self).spec_should_update() == old(self).spec_should_update(),
            final(self).spec_should_redraw() == old(self).spec_should_redraw(),
    {
        let a = self.data[a_index];
        let b = self.data[b_index];
        self.data[a_index] = b;
        self.data[b_index] = a;
    }

    pub fn get_by_index(&self, index: usize) -> (r: Cell)
        requires
            self.wf(),
            index < CHUNK_AREA,
        ensures
            r == self.spec_data()[index as int],
    {
        self.data[index]
    }

    pub fn get_mut_by_index(&mut self, index: usize) -> (r: &mut Cell)
        requires
            old(self).wf(),
            index < CHUNK_AREA,
        ensures
            *r == old(self).spec_data()[index as int],
            final(self).wf(),
            final(self).spec_data() == old(self).spec_data().update(index as int, *final(r)),
            final(self).spec_rng() == old(self).spec_rng(),
            final(self).spec_should_update() == old(self).spec_should_update(),
            final(self).spec_should_redraw() == old(self).spec_should_redraw(),
    {
        &mut self.data[index]
    }
}

} // verus!
