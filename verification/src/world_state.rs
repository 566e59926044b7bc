use vstd::prelude::*;
use std::collections::HashMap;
use crate::cell::Cell;
use crate::chunk::{Chunk, ChunkPos, CHUNK_AREA};
use crate::config::CellsTemplate;
use crate::pos::GlobalCellPos;
use crate::true_mod::true_mod;
use crate::update::{chunk_ids_valid, data_evolved, ChunkUpdateContext};
use crate::outside::process_contexts;

verus! {

broadcast use vstd::std_specs::hash::group_hash_axioms;

/// The packed 64-bit map key of a chunk coordinate: the x half in the
/// upper 32 bits, the y half in the lower 32 bits.
pub open spec fn spec_chunk_key(pos: ChunkPos) -> u64 {
    (((pos.x as u64) & 0xffff_ffff) << 32u64) | ((pos.y as u64) & 0xffff_ffff)
}

/// The chunk coordinate that a packed map key stands for.
pub open spec fn spec_unpack_chunk_key(k: u64) -> ChunkPos {
    ChunkPos { x: ((k >> 32u64) as u32) as i32, y: ((k as u32) as i32) }
}

/// Packing is lossless: the two half-words come back out unchanged.
pub proof fn lemma_chunk_key_round_trip(pos: ChunkPos)
    ensures
        spec_unpack_chunk_key(spec_chunk_key(pos)) == pos,
{
    let x = pos.x;
    let y = pos.y;
    assert(((((((x as u64) & 0xffff_ffff) << 32u64) | ((y as u64) & 0xffff_ffff))
        >> 32u64) as u32) as i32 == x) by (bit_vector);
    assert((((((((x as u64) & 0xffff_ffff) << 32u64) | ((y as u64) & 0xffff_ffff))
        as u32)) as i32) == y) by (bit_vector);
}

/// Unpacking is lossless too: every 64-bit key is the packing of the
/// coordinate it stands for.
pub proof fn lemma_chunk_key_pack_unpack(k: u64)
    ensures
        spec_chunk_key(spec_unpack_chunk_key(k)) == k,
{
    assert(((((((k >> 32u64) as u32) as i32) as u64) & 0xffff_ffff) << 32u64) | (
    ((((k as u32) as i32) as u64) & 0xffff_ffff)) == k) by (bit_vector);
}

/// Two distinct chunk coordinates never share a packed key.
pub proof fn lemma_chunk_key_injective(a: ChunkPos, b: ChunkPos)
    requires
        spec_chunk_key(a) == spec_chunk_key(b),
    ensures
        a == b,
{
    lemma_chunk_key_round_trip(a);
    lemma_chunk_key_round_trip(b);
}

pub fn chunk_key(pos: ChunkPos) -> (r: u64)
    ensures
        r == spec_chunk_key(pos),
{
    (((pos.x as u64) & 0xffff_ffff) << 32) | ((pos.y as u64) & 0xffff_ffff)
}

pub fn unpack_chunk_key(k: u64) -> (r: ChunkPos)
    ensures
        r == spec_unpack_chunk_key(k),
        spec_chunk_key(r) == k,
{
    proof {
        lemma_chunk_key_pack_unpack(k);
    }
    ChunkPos { x: ((k >> 32) as u32) as i32, y: (k as u32) as i32 }
}

/// A coordinate whose whole 3-by-3 neighbourhood stays inside the
/// machine's coordinate range.
pub open spec fn chunk_pos_in_range(pos: ChunkPos) -> bool {
    &&& i32::MIN < pos.x < i32::MAX
    &&& i32::MIN < pos.y < i32::MAX
}

/// State of the physical simulation: the sparse chunk map, keyed by
/// packed coordinates, and the current tick.
pub struct WorldState {
    chunks: HashMap<u64, Chunk>,
    current_tick: u32,
}

impl WorldState {
    pub closed spec fn spec_chunks(self) -> Map<u64, Chunk> {
        self.chunks@
    }

    pub closed spec fn spec_tick(self) -> u32 {
        self.current_tick
    }

    /// Every stored chunk is well formed and holds only known material
    /// ids.
    pub open spec fn wf(self, ncells: int) -> bool {
        forall|k: u64| #[trigger]
            self.spec_chunks().dom().contains(k) ==> {
                &&& self.spec_chunks()[k].wf()
                &&& chunk_ids_valid(self.spec_chunks()[k], ncells)
            }
    }

    /// An empty world. The tick counter starts above the stamp that
    /// freshly initialized cells carry, so cells placed before the first
    /// tick are picked up by it.
    pub fn new() -> (r: WorldState)
        ensures
            r.spec_chunks() == Map::<u64, Chunk>::empty(),
            r.spec_tick() == 1,
    {
        WorldState { chunks: HashMap::new(), current_tick: 1 }
    }

    /// The number of chunks that exist.
    pub fn len(&self) -> (r: usize)
        ensures
            r == self.spec_chunks().dom().len(),
    {
        self.chunks.len()
    }

    pub fn get_chunk(&self, pos: ChunkPos) -> (r: Option<&Chunk>)
        ensures
            match r {
                Some(c) => self.spec_chunks().dom().contains(spec_chunk_key(pos)) && c
                    == &self.spec_chunks()[spec_chunk_key(pos)],
                None => !self.spec_chunks().dom().contains(spec_chunk_key(pos)),
            },
    {
        self.chunks.get(&chunk_key(pos))
    }

    /// Make sure a chunk exists at `pos`, creating a fresh one when the
    /// coordinate is still unexplored.
    pub fn ensure_chunk(&mut self, pos: ChunkPos, cells_template: &CellsTemplate)
        requires
            old(self).wf(cells_template.cells@.len() as int),
            cells_template.wf(),
        ensures
            final(self).wf(cells_template.cells@.len() as int),
            final(self).spec_tick() == old(self).spec_tick(),
            final(self).spec_chunks().dom().contains(spec_chunk_key(pos)),
            old(self).spec_chunks().dom().contains(spec_chunk_key(pos))
                ==> *final(self) == *old(self),
            !old(self).spec_chunks().dom().contains(spec_chunk_key(pos))
                ==> final(self).spec_chunks() == old(self).spec_chunks().insert(
                spec_chunk_key(pos),
                final(self).spec_chunks()[spec_chunk_key(pos)],
            ),
    {
        let key = chunk_key(pos);
        if !self.chunks.contains_key(&key) {
            proof {
                assert(cells_template.cells@[0].id == 0);
            }
            let fresh = Chunk::new(cells_template);
            proof {
                assert(chunk_ids_valid(fresh, cells_template.cells@.len() as int)) by {
                    assert forall|i: int|
                        0 <= i < fresh.spec_data().len() implies (
                        #[trigger] fresh.spec_data()[i]).id < cells_template.cells@.len() as int by {
                        assert(fresh.spec_data()[i] == cells_template.cells@[0].spec_init());
                    }
                }
            }
            self.chunks.insert(key, fresh);
            proof {
                assert forall|k: u64| #[trigger] self.spec_chunks().dom().contains(k) implies self
                    .spec_chunks()[k].wf() && chunk_ids_valid(
                    self.spec_chunks()[k],
                    cells_template.cells@.len() as int,
                ) by {
                    if k != key {
                        assert(old(self).spec_chunks().dom().contains(k));
                    }
                }
            }
        }
    }

    /// Remove and return the chunk at `pos`; a chunk that does not exist
    /// yet is synthesized as a fresh all-default chunk, since the world
    /// is conceptually infinite.
    pub fn take_chunk(&mut self, pos: ChunkPos, cells_template: &CellsTemplate) -> (r: Chunk)
        requires
            cells_template.cells@.len() > 0,
        ensures
            final(self).spec_tick() == old(self).spec_tick(),
            final(self).spec_chunks() == old(self).spec_chunks().remove(spec_chunk_key(pos)),
            old(self).spec_chunks().dom().contains(spec_chunk_key(pos)) ==> r == old(
                self,
            ).spec_chunks()[spec_chunk_key(pos)],
            !old(self).spec_chunks().dom().contains(spec_chunk_key(pos)) ==> {
                &&& r.wf()
                &&& forall|i: int|
                    0 <= i < CHUNK_AREA ==> r.spec_data()[i] == cells_template.cells@[
                    0].spec_init()
                &&& !r.spec_should_update()
                &&& !r.spec_should_redraw()
            },
    {
        let key = chunk_key(pos);
        match self.chunks.remove(&key) {
            Some(chunk) => {
                chunk
            },
            None => {
                proof {
                    assert(old(self).spec_chunks().remove(key) =~= old(self).spec_chunks());
                }
                Chunk::new(cells_template)
            },
        }
    }

    /// Insert a chunk at `pos`, returning what was there.
    pub fn set_chunk(&mut self, pos: ChunkPos, chunk: Chunk) -> (r: Option<Chunk>)
        ensures
            final(self).spec_tick() == old(self).spec_tick(),
            final(self).spec_chunks() == old(self).spec_chunks().insert(
                spec_chunk_key(pos),
                chunk,
            ),
            match r {
                Some(c) => old(self).spec_chunks().dom().contains(spec_chunk_key(pos)) && c == old(self).spec_chunks()[spec_chunk_key(pos)],
                None => !old(self).spec_chunks().dom().contains(spec_chunk_key(pos)),
            },
    {
        self.chunks.insert(chunk_key(pos), chunk)
    }

    /// Write one cell of the world, creating its chunk if needed, and
    /// mark that chunk for update and redraw.
    pub fn set_cell(&mut self, pos: GlobalCellPos, cell: Cell, cells_template: &CellsTemplate)
        requires
            old(self).wf(cells_template.cells@.len() as int),
            cells_template.wf(),
            pos.wf(),
            cell.id < cells_template.cells@.len(),
        ensures
            final(self).wf(cells_template.cells@.len() as int),
            final(self).spec_tick() == old(self).spec_tick(),
            final(self).spec_chunks().dom() == old(self).spec_chunks().dom().insert(
                spec_chunk_key(pos.chunk),
            ),
            forall|k: u64| #[trigger]
                final(self).spec_chunks().dom().contains(k) && k != spec_chunk_key(pos.chunk)
                    ==> final(self).spec_chunks()[k] == old(self).spec_chunks()[k],
            final(self).spec_chunks()[spec_chunk_key(pos.chunk)].spec_data()[pos.cell.spec_index()]
                == cell,
            final(self).spec_chunks()[spec_chunk_key(pos.chunk)].spec_should_update(),
            final(self).spec_chunks()[spec_chunk_key(pos.chunk)].spec_should_redraw(),
    {
        let mut chunk = self.take_chunk(pos.chunk, cells_template);
        proof {
            lemma_chunk_key_round_trip(pos.chunk);
        }
        chunk.set_cell(pos.cell, cell);
        chunk.set_should_update(true);
        chunk.set_should_redraw(true);
        self.set_chunk(pos.chunk, chunk);
        proof {
            assert(final(self).spec_chunks().dom() =~= old(self).spec_chunks().dom().insert(
                spec_chunk_key(pos.chunk),
            ));
        }
    }
}

/// Two distinct chunk coordinates of the same scheduling class (equal
/// coordinates modulo three on both axes) have disjoint 3-by-3
/// neighbourhoods, so the contexts built for them share no chunk.
pub proof fn lemma_partition_disjoint(
    p1: ChunkPos,
    p2: ChunkPos,
    dx1: int,
    dy1: int,
    dx2: int,
    dy2: int,
)
    requires
        p1 != p2,
        (p1.x as int) % 3 == (p2.x as int) % 3,
        (p1.y as int) % 3 == (p2.y as int) % 3,
        -1 <= dx1 <= 1,
        -1 <= dy1 <= 1,
        -1 <= dx2 <= 1,
        -1 <= dy2 <= 1,
    ensures
        p1.x + dx1 != p2.x + dx2 || p1.y + dy1 != p2.y + dy2,
{
    if p1.x != p2.x {
        lemma_same_class_far(p1.x as int, p2.x as int);
    } else {
        assert(p1.y != p2.y);
        lemma_same_class_far(p1.y as int, p2.y as int);
    }
}

/// Distinct integers that agree modulo three lie at least three apart.
proof fn lemma_same_class_far(a: int, b: int)
    requires
        a != b,
        a % 3 == b % 3,
    ensures
        a - b >= 3 || b - a >= 3,
{
    vstd::arithmetic::div_mod::lemma_fundamental_div_mod(a, 3);
    vstd::arithmetic::div_mod::lemma_fundamental_div_mod(b, 3);
    let qa = a / 3;
    let qb = b / 3;
    assert(a - b == 3 * (qa - qb)) by (nonlinear_arith)
        requires a == 3 * qa + a % 3, b == 3 * qb + b % 3, a % 3 == b % 3,
    ;
    assert(qa != qb);
    assert(a - b >= 3 || b - a >= 3) by (nonlinear_arith)
        requires a - b == 3 * (qa - qb), qa != qb,
    ;
}

} // verus!

verus! {

/// The cell contents of a freshly synthesized chunk: every slot holds the
/// catalog's first material, freshly initialized.
pub open spec fn fresh_chunk_data(template: CellsTemplate) -> Seq<Cell> {
    Seq::new(CHUNK_AREA as nat, |i: int| template.cells@[0].spec_init())
}

/// Where a chunk of the map may come from after one tick: it evolved,
/// write by stamped write, either from the chunk that sat under the same
/// key before the tick, or from a freshly synthesized chunk.
pub open spec fn chunk_descends(
    pre: Map<u64, Chunk>,
    c: Chunk,
    k: u64,
    tick: u32,
    template: CellsTemplate,
) -> bool {
    ||| (pre.dom().contains(k) && data_evolved(pre[k].spec_data(), c.spec_data(), tick))
    ||| data_evolved(fresh_chunk_data(template), c.spec_data(), tick)
}

/// Whether a packed key addresses one of the nine chunks of the update
/// window centred at `pos`.
pub open spec fn window_holds(pos: ChunkPos, k: u64) -> bool {
    exists|dx: int, dy: int|
        -1 <= dx <= 1 && -1 <= dy <= 1 && k == #[trigger] spec_chunk_key(
            ChunkPos { x: (pos.x + dx) as i32, y: (pos.y + dy) as i32 },
        )
}

/// Chains of stamped-or-unchanged evolutions compose.
pub proof fn lemma_data_evolved_trans(a: Seq<Cell>, b: Seq<Cell>, c: Seq<Cell>, tick: u32)
    requires
        data_evolved(a, b, tick),
        data_evolved(b, c, tick),
    ensures
        data_evolved(a, c, tick),
{
}

/// What must hold of one update context that was carved out of the map:
/// it is well formed, runs under the right tick and catalog, its centre
/// coordinate can address its whole window, and each of its nine chunks
/// descends from the map as it was at the start of the tick.
pub open spec fn entry_ok(
    e: (ChunkUpdateContext, ChunkPos),
    pre: Map<u64, Chunk>,
    tick: u32,
    template: CellsTemplate,
) -> bool {
    &&& e.0.wf()
    &&& e.0.current_tick == tick
    &&& *e.0.cells_template == template
    &&& chunk_pos_in_range(e.1)
    &&& chunk_descends(pre, e.0.center, spec_chunk_key(e.1), tick, template)
    &&& chunk_descends(
        pre,
        e.0.left,
        spec_chunk_key(ChunkPos { x: (e.1.x - 1) as i32, y: e.1.y }),
        tick,
        template,
    )
    &&& chunk_descends(
        pre,
        e.0.right,
        spec_chunk_key(ChunkPos { x: (e.1.x + 1) as i32, y: e.1.y }),
        tick,
        template,
    )
    &&& chunk_descends(
        pre,
        e.0.top,
        spec_chunk_key(ChunkPos { x: e.1.x, y: (e.1.y + 1) as i32 }),
        tick,
        template,
    )
    &&& chunk_descends(
        pre,
        e.0.bottom,
        spec_chunk_key(ChunkPos { x: e.1.x, y: (e.1.y - 1) as i32 }),
        tick,
        template,
    )
    &&& chunk_descends(
        pre,
        e.0.left_top,
        spec_chunk_key(ChunkPos { x: (e.1.x - 1) as i32, y: (e.1.y + 1) as i32 }),
        tick,
        template,
    )
    &&& chunk_descends(
        pre,
        e.0.right_top,
        spec_chunk_key(ChunkPos { x: (e.1.x + 1) as i32, y: (e.1.y + 1) as i32 }),
        tick,
        template,
    )
    &&& chunk_descends(
        pre,
        e.0.left_bottom,
        spec_chunk_key(ChunkPos { x: (e.1.x - 1) as i32, y: (e.1.y - 1) as i32 }),
        tick,
        template,
    )
    &&& chunk_descends(
        pre,
        e.0.right_bottom,
        spec_chunk_key(ChunkPos { x: (e.1.x + 1) as i32, y: (e.1.y - 1) as i32 }),
        tick,
        template,
    )
}

/// The chunks that one tick selects for update: those stored in the map,
/// flagged as wanting an update, whose coordinate can address its whole
/// window.
pub open spec fn spec_selected(m: Map<u64, Chunk>) -> Set<u64> {
    m.dom().filter(
        |k: u64|
            m[k].spec_should_update() && chunk_pos_in_range(spec_unpack_chunk_key(k)),
    )
}

/// Whether the update window of some selected chunk reaches the chunk
/// under this key.
pub open spec fn touched_by_selection(m: Map<u64, Chunk>, k: u64) -> bool {
    exists|k2: u64| #[trigger]
        spec_selected(m).contains(k2) && window_holds(spec_unpack_chunk_key(k2), k)
}

/// The packed keys of a selection list.
pub open spec fn selected_keys(selected: Seq<(ChunkPos, i32, i32)>) -> Seq<u64> {
    selected.map_values(|e: (ChunkPos, i32, i32)| spec_chunk_key(e.0))
}

/// Every chunk of `cur` descends from the map as it was at the start of
/// the tick.
pub open spec fn map_descends(
    pre: Map<u64, Chunk>,
    cur: Map<u64, Chunk>,
    tick: u32,
    template: CellsTemplate,
) -> bool {
    forall|k: u64| #[trigger]
        cur.dom().contains(k) ==> chunk_descends(pre, cur[k], k, tick, template)
}

/// Every chunk that existed at the start of the tick is either still in
/// the map or held by one of the carved-out contexts.
pub open spec fn covered(
    pre: Map<u64, Chunk>,
    cur: Map<u64, Chunk>,
    ctxs: Seq<(ChunkUpdateContext, ChunkPos)>,
) -> bool {
    forall|k: u64| #[trigger]
        pre.dom().contains(k) ==> cur.dom().contains(k) || exists|j: int|
            0 <= j < ctxs.len() && window_holds(#[trigger] ctxs[j].1, k)
}

/// All carved-out contexts are in good standing.
pub open spec fn entries_ok(
    ctxs: Seq<(ChunkUpdateContext, ChunkPos)>,
    pre: Map<u64, Chunk>,
    tick: u32,
    template: CellsTemplate,
) -> bool {
    forall|j: int| 0 <= j < ctxs.len() ==> entry_ok(#[trigger] ctxs[j], pre, tick, template)
}

} // verus!

verus! {

/// One more stamped-or-unchanged evolution keeps a chunk descending from
/// the same origin.
proof fn lemma_chunk_descends_step(
    pre: Map<u64, Chunk>,
    c1: Chunk,
    c2: Chunk,
    k: u64,
    tick: u32,
    template: CellsTemplate,
)
    requires
        chunk_descends(pre, c1, k, tick, template),
        data_evolved(c1.spec_data(), c2.spec_data(), tick),
    ensures
        chunk_descends(pre, c2, k, tick, template),
{
    if pre.dom().contains(k) && data_evolved(pre[k].spec_data(), c1.spec_data(), tick) {
        lemma_data_evolved_trans(pre[k].spec_data(), c1.spec_data(), c2.spec_data(), tick);
    } else {
        lemma_data_evolved_trans(
            fresh_chunk_data(template),
            c1.spec_data(),
            c2.spec_data(),
            tick,
        );
    }
}

/// Processing a context preserves its standing: its chunks still descend
/// from the map as it was at the start of the tick.
proof fn lemma_entry_ok_after_process(
    pre_e: (ChunkUpdateContext, ChunkPos),
    post_e: (ChunkUpdateContext, ChunkPos),
    pre: Map<u64, Chunk>,
    tick: u32,
    template: CellsTemplate,
)
    requires
        entry_ok(pre_e, pre, tick, template),
        post_e.0.wf(),
        crate::update::process_post(pre_e.0, post_e.0),
        post_e.1 == pre_e.1,
    ensures
        entry_ok(post_e, pre, tick, template),
{
    let p = pre_e.1;
    lemma_chunk_descends_step(
        pre,
        pre_e.0.center,
        post_e.0.center,
        spec_chunk_key(p),
        tick,
        template,
    );
    lemma_chunk_descends_step(
        pre,
        pre_e.0.left,
        post_e.0.left,
        spec_chunk_key(ChunkPos { x: (p.x - 1) as i32, y: p.y }),
        tick,
        template,
    );
    lemma_chunk_descends_step(
        pre,
        pre_e.0.right,
        post_e.0.right,
        spec_chunk_key(ChunkPos { x: (p.x + 1) as i32, y: p.y }),
        tick,
        template,
    );
    lemma_chunk_descends_step(
        pre,
        pre_e.0.top,
        post_e.0.top,
        spec_chunk_key(ChunkPos { x: p.x, y: (p.y + 1) as i32 }),
        tick,
        template,
    );
    lemma_chunk_descends_step(
        pre,
        pre_e.0.bottom,
        post_e.0.bottom,
        spec_chunk_key(ChunkPos { x: p.x, y: (p.y - 1) as i32 }),
        tick,
        template,
    );
    lemma_chunk_descends_step(
        pre,
        pre_e.0.left_top,
        post_e.0.left_top,
        spec_chunk_key(ChunkPos { x: (p.x - 1) as i32, y: (p.y + 1) as i32 }),
        tick,
        template,
    );
    lemma_chunk_descends_step(
        pre,
        pre_e.0.right_top,
        post_e.0.right_top,
        spec_chunk_key(ChunkPos { x: (p.x + 1) as i32, y: (p.y + 1) as i32 }),
        tick,
        template,
    );
    lemma_chunk_descends_step(
        pre,
        pre_e.0.left_bottom,
        post_e.0.left_bottom,
        spec_chunk_key(ChunkPos { x: (p.x - 1) as i32, y: (p.y - 1) as i32 }),
        tick,
        template,
    );
    lemma_chunk_descends_step(
        pre,
        pre_e.0.right_bottom,
        post_e.0.right_bottom,
        spec_chunk_key(ChunkPos { x: (p.x + 1) as i32, y: (p.y - 1) as i32 }),
        tick,
        template,
    );
}

impl WorldState {
    /// Carve the 3-by-3 update window centred at `chunk_pos` out of the
    /// map and bundle it, with the catalog and the current tick, into an
    /// update context. Missing chunks are synthesized fresh.
    #[verifier::rlimit(100)]
    fn take_context<'a>(
        &mut self,
        chunk_pos: ChunkPos,
        cells_template: &'a CellsTemplate,
        Ghost(pre_map): Ghost<Map<u64, Chunk>>,
        Ghost(tick0): Ghost<u32>,
    ) -> (r: ChunkUpdateContext<'a>)
        requires
            old(self).wf(cells_template.cells@.len() as int),
            cells_template.wf(),
            chunk_pos_in_range(chunk_pos),
            map_descends(pre_map, old(self).spec_chunks(), tick0, *cells_template),
            old(self).spec_tick() == tick0,
        ensures
            final(self).wf(cells_template.cells@.len() as int),
            final(self).spec_tick() == tick0,
            map_descends(pre_map, final(self).spec_chunks(), tick0, *cells_template),
            entry_ok((r, chunk_pos), pre_map, tick0, *cells_template),
            forall|k: u64| #[trigger]
                final(self).spec_chunks().dom().contains(k) ==> old(self).spec_chunks().dom().contains(k) && final(self).spec_chunks()[k] == old(self).spec_chunks()[k],
            forall|k: u64| #[trigger]
                old(self).spec_chunks().dom().contains(k) ==> final(self).spec_chunks().dom().contains(k) || window_holds(chunk_pos, k),
    {
        let ghost ncells = cells_template.cells@.len() as int;
        proof {
            assert(cells_template.cells@[0].id == 0);
        }

        let center = self.take_chunk(chunk_pos, cells_template);
        let left = self.take_chunk(chunk_pos.left(), cells_template);
        let right = self.take_chunk(chunk_pos.right(), cells_template);
        let top = self.take_chunk(chunk_pos.top(), cells_template);
        let bottom = self.take_chunk(chunk_pos.bottom(), cells_template);
        let left_top = self.take_chunk(chunk_pos.left_top(), cells_template);
        let right_top = self.take_chunk(chunk_pos.right_top(), cells_template);
        let left_bottom = self.take_chunk(chunk_pos.left_bottom(), cells_template);
        let right_bottom = self.take_chunk(chunk_pos.right_bottom(), cells_template);

        let context = ChunkUpdateContext {
            cells_template,
            current_tick: self.current_tick,
            center,
            left,
            right,
            top,
            bottom,
            left_top,
            right_top,
            left_bottom,
            right_bottom,
        };

        proof {
            lemma_window_keys(chunk_pos);
            assert forall|k: u64| #[trigger]
                old(self).spec_chunks().dom().contains(k) implies self.spec_chunks().dom(
            ).contains(k) || window_holds(chunk_pos, k) by {
            }
        }

        context
    }

    /// Put the nine chunks of a processed update window back into the
    /// map, under the nine keys of the window.
    /// Put one chunk back into the map, preserving the map's standing.
    fn put_back(
        &mut self,
        pos: ChunkPos,
        chunk: Chunk,
        cells_template: &CellsTemplate,
        Ghost(pre_map): Ghost<Map<u64, Chunk>>,
        Ghost(tick0): Ghost<u32>,
    )
        requires
            old(self).wf(cells_template.cells@.len() as int),
            chunk.wf(),
            chunk_ids_valid(chunk, cells_template.cells@.len() as int),
            chunk_descends(pre_map, chunk, spec_chunk_key(pos), tick0, *cells_template),
            map_descends(pre_map, old(self).spec_chunks(), tick0, *cells_template),
        ensures
            final(self).wf(cells_template.cells@.len() as int),
            final(self).spec_tick() == old(self).spec_tick(),
            final(self).spec_chunks() == old(self).spec_chunks().insert(
                spec_chunk_key(pos),
                chunk,
            ),
            map_descends(pre_map, final(self).spec_chunks(), tick0, *cells_template),
    {
        self.set_chunk(pos, chunk);
        proof {
            let n = cells_template.cells@.len() as int;
            assert forall|k: u64| #[trigger] self.spec_chunks().dom().contains(k) implies self
                .spec_chunks()[k].wf() && chunk_ids_valid(self.spec_chunks()[k], n) by {
                if k != spec_chunk_key(pos) {
                    assert(old(self).spec_chunks().dom().contains(k));
                }
            }
            assert forall|k: u64| #[trigger] self.spec_chunks().dom().contains(k) implies
                chunk_descends(pre_map, self.spec_chunks()[k], k, tick0, *cells_template) by {
                if k != spec_chunk_key(pos) {
                    assert(old(self).spec_chunks().dom().contains(k));
                }
            }
        }
    }

    #[verifier::rlimit(100)]
    fn push_context(
        &mut self,
        context: ChunkUpdateContext<'_>,
        chunk_pos: ChunkPos,
        cells_template: &CellsTemplate,
        Ghost(pre_map): Ghost<Map<u64, Chunk>>,
        Ghost(tick0): Ghost<u32>,
    )
        requires
            old(self).wf(cells_template.cells@.len() as int),
            entry_ok((context, chunk_pos), pre_map, tick0, *cells_template),
            map_descends(pre_map, old(self).spec_chunks(), tick0, *cells_template),
        ensures
            final(self).wf(cells_template.cells@.len() as int),
            final(self).spec_tick() == old(self).spec_tick(),
            map_descends(pre_map, final(self).spec_chunks(), tick0, *cells_template),
            forall|k: u64| #[trigger]
                old(self).spec_chunks().dom().contains(k) ==> final(self).spec_chunks().dom().contains(k),
            forall|k: u64|
                window_holds(chunk_pos, k) ==> #[trigger] final(self).spec_chunks().dom().contains(k),
            forall|k: u64|
                !window_holds(chunk_pos, k) ==> ((#[trigger] final(self).spec_chunks().dom().contains(k)) == old(self).spec_chunks().dom().contains(k)) && (old(self).spec_chunks().dom().contains(k) ==> final(self).spec_chunks()[k] == old(self).spec_chunks()[k]),
    {
        let ghost ctx0 = context;
        let ghost n = cells_template.cells@.len() as int;
        proof {
            assert(ctx0.wf());
            assert(ctx0.ncells() == n);
        }
        self.put_back(chunk_pos, context.center, cells_template, Ghost(pre_map), Ghost(tick0));
        self.put_back(
            chunk_pos.left(),
            context.left,
            cells_template,
            Ghost(pre_map),
            Ghost(tick0),
        );
        self.put_back(
            chunk_pos.right(),
            context.right,
            cells_template,
            Ghost(pre_map),
            Ghost(tick0),
        );
        self.put_back(chunk_pos.top(), context.top, cells_template, Ghost(pre_map), Ghost(tick0));
        self.put_back(
            chunk_pos.bottom(),
            context.bottom,
            cells_template,
            Ghost(pre_map),
            Ghost(tick0),
        );
        self.put_back(
            chunk_pos.left_top(),
            context.left_top,
            cells_template,
            Ghost(pre_map),
            Ghost(tick0),
        );
        self.put_back(
            chunk_pos.right_top(),
            context.right_top,
            cells_template,
            Ghost(pre_map),
            Ghost(tick0),
        );
        self.put_back(
            chunk_pos.left_bottom(),
            context.left_bottom,
            cells_template,
            Ghost(pre_map),
            Ghost(tick0),
        );
        self.put_back(
            chunk_pos.right_bottom(),
            context.right_bottom,
            cells_template,
            Ghost(pre_map),
            Ghost(tick0),
        );

        proof {
            lemma_window_keys(chunk_pos);
            assert forall|k: u64| window_holds(chunk_pos, k) implies #[trigger] self
                .spec_chunks().dom().contains(k) by {
                let (dx, dy) = choose|dx: int, dy: int|
                    -1 <= dx <= 1 && -1 <= dy <= 1 && k == #[trigger] spec_chunk_key(
                        ChunkPos { x: (chunk_pos.x + dx) as i32, y: (chunk_pos.y + dy) as i32 },
                    );
            }
        }
    }
}

/// Names the nine packed keys of the window centred at `pos`: each offset
/// pair in the window corresponds to one of the nine neighbour
/// coordinates.
proof fn lemma_window_keys(pos: ChunkPos)
    requires
        chunk_pos_in_range(pos),
    ensures
        window_holds(pos, spec_chunk_key(pos)),
        window_holds(pos, spec_chunk_key(ChunkPos { x: (pos.x - 1) as i32, y: pos.y })),
        window_holds(pos, spec_chunk_key(ChunkPos { x: (pos.x + 1) as i32, y: pos.y })),
        window_holds(pos, spec_chunk_key(ChunkPos { x: pos.x, y: (pos.y + 1) as i32 })),
        window_holds(pos, spec_chunk_key(ChunkPos { x: pos.x, y: (pos.y - 1) as i32 })),
        window_holds(
            pos,
            spec_chunk_key(ChunkPos { x: (pos.x - 1) as i32, y: (pos.y + 1) as i32 }),
        ),
        window_holds(
            pos,
            spec_chunk_key(ChunkPos { x: (pos.x + 1) as i32, y: (pos.y + 1) as i32 }),
        ),
        window_holds(
            pos,
            spec_chunk_key(ChunkPos { x: (pos.x - 1) as i32, y: (pos.y - 1) as i32 }),
        ),
        window_holds(
            pos,
            spec_chunk_key(ChunkPos { x: (pos.x + 1) as i32, y: (pos.y - 1) as i32 }),
        ),
{
    assert forall|dx: int, dy: int| -1 <= dx <= 1 && -1 <= dy <= 1 implies window_holds(
        pos,
        #[trigger] spec_chunk_key(ChunkPos { x: (pos.x + dx) as i32, y: (pos.y + dy) as i32 }),
    ) by {
    }
    assert(spec_chunk_key(ChunkPos { x: (pos.x + 0) as i32, y: (pos.y + 0) as i32 })
        == spec_chunk_key(pos));
    assert(spec_chunk_key(ChunkPos { x: (pos.x + (-1)) as i32, y: (pos.y + 0) as i32 })
        == spec_chunk_key(ChunkPos { x: (pos.x - 1) as i32, y: pos.y }));
    assert(spec_chunk_key(ChunkPos { x: (pos.x + 1) as i32, y: (pos.y + 0) as i32 })
        == spec_chunk_key(ChunkPos { x: (pos.x + 1) as i32, y: pos.y }));
    assert(spec_chunk_key(ChunkPos { x: (pos.x + 0) as i32, y: (pos.y + 1) as i32 })
        == spec_chunk_key(ChunkPos { x: pos.x, y: (pos.y + 1) as i32 }));
    assert(spec_chunk_key(ChunkPos { x: (pos.x + 0) as i32, y: (pos.y + (-1)) as i32 })
        == spec_chunk_key(ChunkPos { x: pos.x, y: (pos.y - 1) as i32 }));
    assert(spec_chunk_key(ChunkPos { x: (pos.x + (-1)) as i32, y: (pos.y + 1) as i32 })
        == spec_chunk_key(ChunkPos { x: (pos.x - 1) as i32, y: (pos.y + 1) as i32 }));
    assert(spec_chunk_key(ChunkPos { x: (pos.x + (-1)) as i32, y: (pos.y + (-1)) as i32 })
        == spec_chunk_key(ChunkPos { x: (pos.x - 1) as i32, y: (pos.y - 1) as i32 }));
    assert(spec_chunk_key(ChunkPos { x: (pos.x + 1) as i32, y: (pos.y + (-1)) as i32 })
        == spec_chunk_key(ChunkPos { x: (pos.x + 1) as i32, y: (pos.y - 1) as i32 }));
}

impl WorldState {
    /// Advance the simulation by exactly one tick. The dirty chunks are
    /// partitioned into nine classes by their coordinates modulo three;
    /// for each class, an update window is carved out of the map around
    /// every selected chunk, the windows are processed concurrently, and
    /// every chunk is put back. No chunk is lost, and every chunk of the
    /// resulting map evolved from the map at the start of the tick — or
    /// from a freshly synthesized chunk — one stamped write at a time.
    /// The returned count of selected chunks is a diagnostic value only.
    pub fn update_state(&mut self, cells_template: &CellsTemplate) -> (r: usize)
        requires
            old(self).wf(cells_template.cells@.len() as int),
            cells_template.wf(),
            old(self).spec_tick() < u32::MAX,
        ensures
            final(self).wf(cells_template.cells@.len() as int),
            final(self).spec_tick() == old(self).spec_tick() + 1,
            forall|k: u64| #[trigger]
                old(self).spec_chunks().dom().contains(k)
                    ==> final(self).spec_chunks().dom().contains(k),
            map_descends(
                old(self).spec_chunks(),
                final(self).spec_chunks(),
                old(self).spec_tick(),
                *cells_template,
            ),
            r == spec_selected(old(self).spec_chunks()).len(),
            forall|k: u64| #[trigger]
                old(self).spec_chunks().dom().contains(k) && !touched_by_selection(
                    old(self).spec_chunks(),
                    k,
                ) ==> final(self).spec_chunks().dom().contains(k) && final(self).spec_chunks()[k]
                    == old(self).spec_chunks()[k],
    {
        let ghost ncells = cells_template.cells@.len() as int;
        let ghost pre_map = self.spec_chunks();
        let ghost tick0 = self.spec_tick();

        // Select the chunks that want an update, remembering each one's
        // partition class. Chunks at the very edge of the coordinate
        // range are left alone: their window is not addressable.
        let mut selected: Vec<(ChunkPos, i32, i32)> = Vec::new();
        proof {
            vstd::std_specs::hash::axiom_spec_keys_iter(&self.chunks);
            let ks = vstd::std_specs::hash::spec_keys_iter(&self.chunks);
            let s0 = vstd::std_specs::iter::IteratorSpec::remaining(&ks);
            assert(s0.unref().skip(0) =~= s0.unref());
        }
        for k in it: self.chunks.keys()
            invariant
                pre_map == self.spec_chunks(),
                it.wf(),
                it.seq().no_duplicates(),
                it.seq().unref().to_set() == pre_map.dom(),
                selected_keys(selected@).no_duplicates(),
                forall|j: int|
                    0 <= j < selected@.len() ==> chunk_pos_in_range(
                        (#[trigger] selected@[j]).0,
                    ),
                forall|j: int|
                    0 <= j < selected@.len() ==> spec_selected(pre_map).contains(
                        #[trigger] selected_keys(selected@)[j],
                    ),
                forall|j: int|
                    0 <= j < selected@.len() ==> it.history@.unref().contains(
                        #[trigger] selected_keys(selected@)[j],
                    ),
                forall|k2: u64|
                    #![trigger spec_selected(pre_map).contains(k2)]
                    spec_selected(pre_map).contains(k2) ==> selected_keys(selected@).contains(
                        k2,
                    ) || it.seq().unref().skip(it.index()).contains(k2),
        {
            proof {
                assert(k == it.seq()[it.index()]);
                assert(*k == it.seq().unref()[it.index()]);
                assert forall|i: int| 0 <= i < it.index() implies it.seq().unref()[i] != *k by {
                    assert(it.seq()[i] != it.seq()[it.index()]);
                }
            }
            let pos = unpack_chunk_key(*k);
            proof {
                if spec_selected(pre_map).contains(*k) {
                    assert(pre_map.dom().contains(*k));
                    assert(pre_map[*k].spec_should_update());
                    assert(chunk_pos_in_range(spec_unpack_chunk_key(*k)));
                    assert(pos == spec_unpack_chunk_key(*k));
                }
            }
            let ghost head_selected = selected@;
            let in_range = pos.x > i32::MIN && pos.x < i32::MAX && pos.y > i32::MIN && pos.y
                < i32::MAX;
            let mut wants_update = false;
            if in_range {
                match self.chunks.get(k) {
                    Some(chunk) => {
                        wants_update = chunk.should_update();
                    },
                    None => {},
                }
            }

            if wants_update {
                let xm = true_mod(pos.x, 3);
                let ym = true_mod(pos.y, 3);
                let ghost before = head_selected;
                selected.push((pos, xm, ym));
                proof {
                    assert(spec_chunk_key(pos) == *k);
                    assert(spec_selected(pre_map).contains(*k));
                    assert(selected_keys(selected@) =~= selected_keys(before).push(*k));
                    assert forall|j: int|
                        0 <= j < selected_keys(before).len() implies #[trigger] selected_keys(
                        before,
                    )[j] != *k by {
                        let h = choose|h: int|
                            0 <= h < it.history@.unref().len() && it.history@.unref()[h]
                                == selected_keys(before)[j];
                        assert(it.history@[h] == it.seq()[h]);
                        assert(it.seq().unref()[h] == selected_keys(before)[j]);
                    }
                    assert(selected_keys(selected@).len() == selected_keys(before).len() + 1);
                    assert(selected_keys(selected@)[selected_keys(before).len() as int] == *k);
                    assert(selected_keys(selected@).contains(*k));
                }
            } else {
                proof {
                    assert(!spec_selected(pre_map).contains(*k));
                }
            }
            proof {
                assert forall|k2: u64|
                    spec_selected(pre_map).contains(k2) implies selected_keys(
                    selected@,
                ).contains(k2) || it.seq().unref().skip(it.index() + 1).contains(k2) by {
                    if k2 == *k {
                        assert(spec_chunk_key(spec_unpack_chunk_key(k2)) == k2) by {
                            lemma_chunk_key_pack_unpack(k2);
                        }
                        assert(selected_keys(selected@).contains(k2));
                    } else if it.seq().unref().skip(it.index()).contains(k2) {
                        let sfx = it.seq().unref().skip(it.index());
                        let p = choose|p: int| 0 <= p < sfx.len() && sfx[p] == k2;
                        assert(sfx[p] == it.seq().unref()[p + it.index()]);
                        assert(sfx[0] == *k);
                        assert(p != 0);
                        assert(it.seq().unref().skip(it.index() + 1)[p - 1] == k2);
                    } else {
                        assert(selected_keys(head_selected).contains(k2));
                        let j = choose|j: int|
                            0 <= j < selected_keys(head_selected).len() && selected_keys(
                                head_selected,
                            )[j] == k2;
                        assert(selected_keys(selected@)[j] == k2);
                    }
                }
                assert forall|j: int|
                    0 <= j < selected@.len() implies it.history@.push(k).unref().contains(
                    #[trigger] selected_keys(selected@)[j]) by {
                    if j < selected_keys(selected@).len() && it.history@.unref().contains(
                        selected_keys(selected@)[j],
                    ) {
                        let h = choose|h: int|
                            0 <= h < it.history@.unref().len() && it.history@.unref()[h]
                                == selected_keys(selected@)[j];
                        assert(it.history@.push(k).unref()[h] == selected_keys(selected@)[j]);
                    } else {
                        assert(it.history@.push(k).unref()[it.history@.len() as int] == *k);
                    }
                }
            }
        }

        proof {
            assert(forall|k2: u64|
                #[trigger] spec_selected(pre_map).contains(k2) ==> selected_keys(
                    selected@,
                ).contains(k2));
            assert(selected_keys(selected@).to_set() =~= spec_selected(pre_map));
            selected_keys(selected@).unique_seq_to_set();
            assert(selected@.len() == spec_selected(pre_map).len());
        }

        let updates_count = selected.len();

        let mut class_index: usize = 0;
        while class_index < 9
            invariant
                self.wf(ncells),
                cells_template.wf(),
                ncells == cells_template.cells@.len() as int,
                self.spec_tick() == tick0,
                tick0 == old(self).spec_tick(),
                tick0 < u32::MAX,
                pre_map == old(self).spec_chunks(),
                map_descends(pre_map, self.spec_chunks(), tick0, *cells_template),
                forall|k: u64| #[trigger]
                    pre_map.dom().contains(k) ==> self.spec_chunks().dom().contains(k),
                forall|j: int|
                    0 <= j < selected@.len() ==> chunk_pos_in_range(
                        (#[trigger] selected@[j]).0,
                    ),
                forall|j: int|
                    0 <= j < selected@.len() ==> spec_selected(pre_map).contains(
                        #[trigger] selected_keys(selected@)[j],
                    ),
                forall|k: u64| #[trigger]
                    pre_map.dom().contains(k) && !touched_by_selection(pre_map, k)
                        ==> self.spec_chunks().dom().contains(k) && self.spec_chunks()[k]
                        == pre_map[k],
            decreases 9 - class_index,
        {
            let x_rem = (class_index % 3) as i32;
            let y_rem = (class_index / 3) as i32;

            let mut update_contexts: Vec<(ChunkUpdateContext, ChunkPos)> = Vec::new();

            let mut j: usize = 0;
            while j < selected.len()
                invariant
                    self.wf(ncells),
                    cells_template.wf(),
                    ncells == cells_template.cells@.len() as int,
                    self.spec_tick() == tick0,
                    tick0 < u32::MAX,
                    map_descends(pre_map, self.spec_chunks(), tick0, *cells_template),
                    covered(pre_map, self.spec_chunks(), update_contexts@),
                    entries_ok(update_contexts@, pre_map, tick0, *cells_template),
                    forall|jj: int|
                        0 <= jj < selected@.len() ==> chunk_pos_in_range(
                            (#[trigger] selected@[jj]).0,
                        ),
                    forall|jj: int|
                        0 <= jj < selected@.len() ==> spec_selected(pre_map).contains(
                            #[trigger] selected_keys(selected@)[jj],
                        ),
                forall|k: u64| #[trigger]
                    pre_map.dom().contains(k) && !touched_by_selection(pre_map, k)
                        ==> self.spec_chunks().dom().contains(k) && self.spec_chunks()[k]
                        == pre_map[k],
                    forall|j2: int|
                        0 <= j2 < update_contexts@.len() ==> spec_selected(pre_map).contains(
                            spec_chunk_key((#[trigger] update_contexts@[j2]).1),
                        ),
                decreases selected@.len() - j,
            {
                let entry = selected[j];
                if entry.1 == x_rem && entry.2 == y_rem {
                    let chunk_pos = entry.0;
                    let ghost dom_before = self.spec_chunks().dom();
                    let ghost ctxs_before = update_contexts@;

                    let context = self.take_context(
                        chunk_pos,
                        cells_template,
                        Ghost(pre_map),
                        Ghost(tick0),
                    );

                    update_contexts.push((context, chunk_pos));

                    proof {
                        lemma_chunk_key_round_trip(chunk_pos);
                        assert(selected_keys(selected@)[j as int] == spec_chunk_key(chunk_pos));
                        assert(spec_selected(pre_map).contains(spec_chunk_key(chunk_pos)));
                        assert forall|k: u64| #[trigger]
                            pre_map.dom().contains(k) && !touched_by_selection(
                                pre_map,
                                k,
                            ) implies self.spec_chunks().dom().contains(k)
                            && self.spec_chunks()[k] == pre_map[k] by {
                            if window_holds(chunk_pos, k) {
                                assert(touched_by_selection(pre_map, k));
                            }
                        }
                        assert forall|k: u64| #[trigger]
                            pre_map.dom().contains(k) && !self.spec_chunks().dom().contains(
                                k,
                            ) implies exists|j2: int|
                            0 <= j2 < update_contexts@.len() && window_holds(
                                #[trigger] update_contexts@[j2].1,
                                k,
                            ) by {
                            if dom_before.contains(k) {
                                assert(window_holds(chunk_pos, k));
                                assert(update_contexts@[update_contexts@.len() - 1].1
                                    == chunk_pos);
                            } else {
                                let j2 = choose|j2: int|
                                    0 <= j2 < ctxs_before.len() && window_holds(
                                        #[trigger] ctxs_before[j2].1,
                                        k,
                                    );
                                assert(window_holds(update_contexts@[j2].1, k));
                            }
                        }
                    }
                }
                j += 1;
            }

            let ghost before_processing = update_contexts@;
            process_contexts(&mut update_contexts);
            proof {
                assert forall|j2: int| 0 <= j2 < update_contexts@.len() implies entry_ok(
                    #[trigger] update_contexts@[j2],
                    pre_map,
                    tick0,
                    *cells_template,
                ) by {
                    lemma_entry_ok_after_process(
                        before_processing[j2],
                        update_contexts@[j2],
                        pre_map,
                        tick0,
                        *cells_template,
                    );
                }
                assert(covered(pre_map, self.spec_chunks(), update_contexts@)) by {
                    assert forall|k: u64| #[trigger]
                        pre_map.dom().contains(k) && !self.spec_chunks().dom().contains(
                            k,
                        ) implies exists|j2: int|
                        0 <= j2 < update_contexts@.len() && window_holds(
                            #[trigger] update_contexts@[j2].1,
                            k,
                        ) by {
                        let j2 = choose|j2: int|
                            0 <= j2 < before_processing.len() && window_holds(
                                #[trigger] before_processing[j2].1,
                                k,
                            );
                        assert(window_holds(update_contexts@[j2].1, k));
                    }
                }
            }

            while update_contexts.len() > 0
                invariant
                    self.wf(ncells),
                    cells_template.wf(),
                    ncells == cells_template.cells@.len() as int,
                    self.spec_tick() == tick0,
                    tick0 < u32::MAX,
                    map_descends(pre_map, self.spec_chunks(), tick0, *cells_template),
                    covered(pre_map, self.spec_chunks(), update_contexts@),
                    entries_ok(update_contexts@, pre_map, tick0, *cells_template),
                    forall|j2: int|
                        0 <= j2 < update_contexts@.len() ==> spec_selected(pre_map).contains(
                            spec_chunk_key((#[trigger] update_contexts@[j2]).1),
                        ),
                    forall|k: u64| #[trigger]
                        pre_map.dom().contains(k) && !touched_by_selection(pre_map, k)
                            ==> self.spec_chunks().dom().contains(k) && self.spec_chunks()[k]
                            == pre_map[k],
                decreases update_contexts@.len(),
            {
                let ghost before_pop = update_contexts@;
                let popped = update_contexts.pop().unwrap();
                let chunk_pos = popped.1;
                let context = popped.0;
                proof {
                    assert(entry_ok(
                        before_pop[before_pop.len() - 1],
                        pre_map,
                        tick0,
                        *cells_template,
                    ));
                }

                let ghost frame_before = self.spec_chunks();
                self.push_context(
                    context,
                    chunk_pos,
                    cells_template,
                    Ghost(pre_map),
                    Ghost(tick0),
                );

                proof {
                    lemma_chunk_key_round_trip(chunk_pos);
                    assert(spec_selected(pre_map).contains(spec_chunk_key(chunk_pos)));
                    assert forall|k: u64| #[trigger]
                        pre_map.dom().contains(k) && !touched_by_selection(
                            pre_map,
                            k,
                        ) implies self.spec_chunks().dom().contains(k) && self.spec_chunks()[k]
                        == pre_map[k] by {
                        if window_holds(chunk_pos, k) {
                            assert(touched_by_selection(pre_map, k));
                        }
                    }
                    assert(covered(pre_map, self.spec_chunks(), update_contexts@)) by {
                        assert forall|k: u64| #[trigger]
                            pre_map.dom().contains(k) && !self.spec_chunks().dom().contains(
                                k,
                            ) implies exists|j2: int|
                            0 <= j2 < update_contexts@.len() && window_holds(
                                #[trigger] update_contexts@[j2].1,
                                k,
                            ) by {
                            let j2 = choose|j2: int|
                                0 <= j2 < before_pop.len() && window_holds(
                                    #[trigger] before_pop[j2].1,
                                    k,
                                );
                            if j2 == before_pop.len() - 1 {
                                assert(self.spec_chunks().dom().contains(k));
                                assert(false);
                            } else {
                                assert(window_holds(update_contexts@[j2].1, k));
                            }
                        }
                    }
                }
            }

            class_index += 1;
        }

        self.current_tick = self.current_tick + 1;

        updates_count
    }
}

} // verus!
