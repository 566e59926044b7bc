use vstd::prelude::*;
use crate::chunk::{CHUNK_AREA, CHUNK_SIZE};
use crate::pos::{lemma_cell_pos_round_trip, lemma_index_round_trip, CellCord, CellPos};

verus! {

/// Accumulated geometric transformation applied to every relative offset
/// while a rule tree is evaluated: mirror along X, mirror along Y, and a
/// diagonal swap of the axes.
#[derive(Debug, Clone, Copy, PartialEq, Eq, Structural, PartialOrd, Ord)]
pub struct RelativeTransformation {
    pub mirror_x: bool,
    pub mirror_y: bool,
    pub mirror_diagonal: bool,
}

impl RelativeTransformation {
    pub fn identity() -> (r: RelativeTransformation)
        ensures
            r.mirror_x == false,
            r.mirror_y == false,
            r.mirror_diagonal == false,
    {
        RelativeTransformation { mirror_x: false, mirror_y: false, mirror_diagonal: false }
    }

    pub fn mirror_x(self) -> (r: RelativeTransformation)
        ensures
            r.mirror_x == !self.mirror_x,
            r.mirror_y == self.mirror_y,
            r.mirror_diagonal == self.mirror_diagonal,
    {
        RelativeTransformation {
            mirror_x: !self.mirror_x,
            mirror_y: self.mirror_y,
            mirror_diagonal: self.mirror_diagonal,
        }
    }

    pub fn mirror_y(self) -> (r: RelativeTransformation)
        ensures
            r.mirror_x == self.mirror_x,
            r.mirror_y == !self.mirror_y,
            r.mirror_diagonal == self.mirror_diagonal,
    {
        RelativeTransformation {
            mirror_x: self.mirror_x,
            mirror_y: !self.mirror_y,
            mirror_diagonal: self.mirror_diagonal,
        }
    }

    pub fn mirror_diagonal(self) -> (r: RelativeTransformation)
        ensures
            r.mirror_x == self.mirror_y,
            r.mirror_y == self.mirror_x,
            r.mirror_diagonal == !self.mirror_diagonal,
    {
        RelativeTransformation {
            mirror_x: self.mirror_y,
            mirror_y: self.mirror_x,
            mirror_diagonal: !self.mirror_diagonal,
        }
    }
}

/// Offset of a neighbour cell relative to the cell being evaluated.
#[derive(Debug, Clone, Copy, PartialEq, Eq, Structural, PartialOrd, Ord)]
pub struct RelativePos {
    pub x: i8,
    pub y: i8,
}

impl RelativePos {
    /// The offset can be mirrored without leaving the machine range.
    pub open spec fn wf(self) -> bool {
        self.x > i8::MIN && self.y > i8::MIN
    }

    /// The offset after applying a geometric transformation.
    pub open spec fn spec_transform(self, t: RelativeTransformation) -> RelativePos {
        let x = if t.mirror_x { -self.x as int } else { self.x as int };
        let y = if t.mirror_y { -self.y as int } else { self.y as int };
        if t.mirror_diagonal {
            RelativePos { x: y as i8, y: x as i8 }
        } else {
            RelativePos { x: x as i8, y: y as i8 }
        }
    }

    pub fn self_pos() -> (r: RelativePos)
        ensures
            r.x == 0 && r.y == 0,
    {
        RelativePos { x: 0, y: 0 }
    }

    pub fn new(x: i8, y: i8) -> (r: RelativePos)
        ensures
            r.x == x && r.y == y,
    {
        RelativePos { x, y }
    }

    pub fn down() -> (r: RelativePos)
        ensures
            r.x == 0 && r.y == -1,
    {
        RelativePos { x: 0, y: -1 }
    }

    pub fn down_left() -> (r: RelativePos)
        ensures
            r.x == -1 && r.y == -1,
    {
        RelativePos { x: -1, y: -1 }
    }

    pub fn down_right() -> (r: RelativePos)
        ensures
            r.x == 1 && r.y == -1,
    {
        RelativePos { x: 1, y: -1 }
    }

    pub fn transform(self, transformation: RelativeTransformation) -> (r: RelativePos)
        requires
            self.wf(),
        ensures
            r == self.spec_transform(transformation),
            r.wf(),
    {
        let mut x = self.x;
        let mut y = self.y;
        if transformation.mirror_x {
            x = -x;
        }
        if transformation.mirror_y {
            y = -y;
        }
        if transformation.mirror_diagonal {
            let tmp = x;
            x = y;
            y = tmp;
        }
        RelativePos { x, y }
    }
}

} // verus!

verus! {

/// Which column of the 3-by-3 chunk window a cell address falls in.
#[derive(Debug, Clone, Copy, PartialEq, Eq, Structural, Hash, PartialOrd, Ord)]
pub enum HorizontalSide {
    Left,
    Center,
    Right,
}

/// Which row of the 3-by-3 chunk window a cell address falls in.
#[derive(Debug, Clone, Copy, PartialEq, Eq, Structural, Hash, PartialOrd, Ord)]
pub enum VerticalSide {
    Top,
    Center,
    Bottom,
}

/// Which of the nine chunks of an update window a cell address falls in.
#[derive(Debug, Clone, Copy, PartialEq, Eq, Structural, Hash, PartialOrd, Ord)]
pub struct Side {
    pub horizontal: HorizontalSide,
    pub vertical: VerticalSide,
}

impl Side {
    pub open spec fn is_center(self) -> bool {
        self.horizontal == HorizontalSide::Center && self.vertical == VerticalSide::Center
    }

    pub open spec fn spec_offset_x(self) -> int {
        match self.horizontal {
            HorizontalSide::Left => -(CHUNK_SIZE as int),
            HorizontalSide::Center => 0,
            HorizontalSide::Right => CHUNK_SIZE as int,
        }
    }

    pub open spec fn spec_offset_y(self) -> int {
        match self.vertical {
            VerticalSide::Top => CHUNK_SIZE as int,
            VerticalSide::Center => 0,
            VerticalSide::Bottom => -(CHUNK_SIZE as int),
        }
    }

    /// The cell-coordinate offset of this side's chunk relative to the
    /// centre chunk.
    pub fn chunk_pos_offset(self) -> (r: (i16, i16))
        ensures
            r.0 == self.spec_offset_x(),
            r.1 == self.spec_offset_y(),
    {
        let x_offset: i16 = match self.horizontal {
            HorizontalSide::Left => -(CHUNK_SIZE as i16),
            HorizontalSide::Center => 0,
            HorizontalSide::Right => CHUNK_SIZE as i16,
        };
        let y_offset: i16 = match self.vertical {
            VerticalSide::Top => CHUNK_SIZE as i16,
            VerticalSide::Center => 0,
            VerticalSide::Bottom => -(CHUNK_SIZE as i16),
        };

        (x_offset, y_offset)
    }
}

/// Address of one cell anywhere in the 3-by-3 chunk window: the side that
/// names the chunk, and the linear cell index inside that chunk.
#[derive(Debug, Clone, Copy, PartialEq, Eq, Structural, PartialOrd, Ord)]
pub struct AbsoluteCellPos {
    pub index: usize,
    pub side: Side,
}

impl AbsoluteCellPos {
    pub open spec fn wf(self) -> bool {
        self.index < CHUNK_AREA
    }

    /// The x coordinate of this address relative to the centre chunk's
    /// lower-left cell; in `[-CHUNK_SIZE, 2 * CHUNK_SIZE)`.
    pub open spec fn spec_x(self) -> int {
        (self.index as int) % (CHUNK_SIZE as int) + self.spec_offset_x_of_side()
    }

    pub open spec fn spec_y(self) -> int {
        (self.index as int) / (CHUNK_SIZE as int) + self.spec_offset_y_of_side()
    }

    pub open spec fn spec_offset_x_of_side(self) -> int {
        self.side.spec_offset_x()
    }

    pub open spec fn spec_offset_y_of_side(self) -> int {
        self.side.spec_offset_y()
    }

    pub fn central(index: usize) -> (r: AbsoluteCellPos)
        ensures
            r.index == index,
            r.side.horizontal == HorizontalSide::Center,
            r.side.vertical == VerticalSide::Center,
    {
        AbsoluteCellPos {
            index,
            side: Side { horizontal: HorizontalSide::Center, vertical: VerticalSide::Center },
        }
    }

    pub fn cell_pos(self) -> (r: CellPos)
        requires
            self.wf(),
        ensures
            r == CellPos::spec_from_index(self.index as int),
            r.wf(),
    {
        CellPos::from_index(self.index)
    }

    pub fn is_in_central(&self) -> (r: bool)
        ensures
            r == self.side.is_center(),
    {
        self.side.horizontal == HorizontalSide::Center && self.side.vertical
            == VerticalSide::Center
    }

    /// Split window coordinates into a side and an in-chunk index. Inverse
    /// of `to_cord` on well-formed addresses.
    pub fn from_cords(x: i16, y: i16) -> (r: AbsoluteCellPos)
        requires
            -(CHUNK_SIZE as int) < x < 2 * CHUNK_SIZE,
            -(CHUNK_SIZE as int) < y < 2 * CHUNK_SIZE,
        ensures
            r.wf(),
            r.spec_x() == x,
            r.spec_y() == y,
    {
        let side_len = CHUNK_SIZE as i16;

        let (norm_x, h_side) = if x < 0 {
            (x + side_len, HorizontalSide::Left)
        } else if x < side_len {
            (x, HorizontalSide::Center)
        } else {
            (x - side_len, HorizontalSide::Right)
        };
        let (norm_y, v_side) = if y < 0 {
            (y + side_len, VerticalSide::Bottom)
        } else if y < side_len {
            (y, VerticalSide::Center)
        } else {
            (y - side_len, VerticalSide::Top)
        };

        let index = CellPos::new(norm_x as CellCord, norm_y as CellCord).to_index();
        proof {
            lemma_norm_index(norm_x as int, norm_y as int);
        }
        AbsoluteCellPos { index, side: Side { horizontal: h_side, vertical: v_side } }
    }

    /// The window coordinates of this address. Inverse of `from_cords`.
    pub fn to_cord(self) -> (r: (i16, i16))
        requires
            self.wf(),
        ensures
            r.0 == self.spec_x(),
            r.1 == self.spec_y(),
            -(CHUNK_SIZE as int) <= r.0 < 2 * CHUNK_SIZE,
            -(CHUNK_SIZE as int) <= r.1 < 2 * CHUNK_SIZE,
    {
        let cell_pos = CellPos::from_index(self.index);
        let x = cell_pos.x as i16;
        let y = cell_pos.y as i16;

        let x = match self.side.horizontal {
            HorizontalSide::Left => x - CHUNK_SIZE as i16,
            HorizontalSide::Center => x,
            HorizontalSide::Right => x + CHUNK_SIZE as i16,
        };

        let y = match self.side.vertical {
            VerticalSide::Top => y + CHUNK_SIZE as i16,
            VerticalSide::Center => y,
            VerticalSide::Bottom => y - CHUNK_SIZE as i16,
        };

        (x, y)
    }

    /// One unit step from this address toward `target`, along each axis
    /// independently.
    pub fn move_towards(self, target: AbsoluteCellPos) -> (r: AbsoluteCellPos)
        requires
            self.wf(),
            target.wf(),
            self.spec_x() > -(CHUNK_SIZE as int),
            self.spec_y() > -(CHUNK_SIZE as int),
            target.spec_x() > -(CHUNK_SIZE as int),
            target.spec_y() > -(CHUNK_SIZE as int),
        ensures
            r.wf(),
            r.spec_x() == spec_move_towards(self.spec_x(), target.spec_x()),
            r.spec_y() == spec_move_towards(self.spec_y(), target.spec_y()),
    {
        let (x, y) = self.to_cord();
        let (target_x, target_y) = target.to_cord();

        let new_x = move_towards(x, target_x);
        let new_y = move_towards(y, target_y);

        AbsoluteCellPos::from_cords(new_x, new_y)
    }
}

/// An in-chunk coordinate pair composes to an index inside the chunk, and
/// decomposes back to the same pair.
proof fn lemma_norm_index(nx: int, ny: int)
    requires
        0 <= nx < CHUNK_SIZE,
        0 <= ny < CHUNK_SIZE,
    ensures
        (nx + ny * CHUNK_SIZE) % (CHUNK_SIZE as int) == nx,
        (nx + ny * CHUNK_SIZE) / (CHUNK_SIZE as int) == ny,
        0 <= nx + ny * CHUNK_SIZE < CHUNK_AREA,
{
    let p = CellPos { x: nx as u16, y: ny as u16 };
    lemma_cell_pos_round_trip(p);
}

/// Resolve a transformed relative offset against a central cell index:
/// the address of the neighbour, which always lies inside the 3-by-3
/// window because rule offsets are smaller than one chunk.
pub fn get_absolute_cell_pos(cell_index: usize, dst_relative_pos: RelativePos) -> (r:
    AbsoluteCellPos)
    requires
        cell_index < CHUNK_AREA,
    ensures
        r == spec_abs_pos(cell_index as int, dst_relative_pos),
        r.wf(),
        r.spec_x() == cell_index as int % (CHUNK_SIZE as int) + dst_relative_pos.x,
        r.spec_y() == cell_index as int / (CHUNK_SIZE as int) + dst_relative_pos.y,
{
    let cell_pos = CellPos::from_index(cell_index);

    let x = cell_pos.x as i32 + dst_relative_pos.x as i32;
    let y = cell_pos.y as i32 + dst_relative_pos.y as i32;

    let (x, horizontal) = if x < 0 {
        ((x + CHUNK_SIZE as i32) as CellCord, HorizontalSide::Left)
    } else if x < CHUNK_SIZE as i32 {
        (x as CellCord, HorizontalSide::Center)
    } else {
        ((x - CHUNK_SIZE as i32) as CellCord, HorizontalSide::Right)
    };

    let (y, vertical) = if y < 0 {
        ((y + CHUNK_SIZE as i32) as CellCord, VerticalSide::Bottom)
    } else if y < CHUNK_SIZE as i32 {
        (y as CellCord, VerticalSide::Center)
    } else {
        ((y - CHUNK_SIZE as i32) as CellCord, VerticalSide::Top)
    };

    let index = CellPos::new(x, y).to_index();
    proof {
        lemma_norm_index(x as int, y as int);
    }
    let side = Side { horizontal, vertical };

    AbsoluteCellPos { index, side }
}

/// The address that `get_absolute_cell_pos` resolves a transformed offset
/// to, as a function of the central index and the offset.
pub open spec fn spec_abs_pos(cell_index: int, rel: RelativePos) -> AbsoluteCellPos {
    let s = CHUNK_SIZE as int;
    let x = cell_index % s + rel.x;
    let y = cell_index / s + rel.y;
    let nx = if x < 0 { x + s } else if x < s { x as int } else { x - s };
    let ny = if y < 0 { y + s } else if y < s { y as int } else { y - s };
    let h = if x < 0 { HorizontalSide::Left } else if x < s { HorizontalSide::Center } else { HorizontalSide::Right };
    let v = if y < 0 { VerticalSide::Bottom } else if y < s { VerticalSide::Center } else { VerticalSide::Top };
    AbsoluteCellPos { index: (nx + ny * s) as usize, side: Side { horizontal: h, vertical: v } }
}

/// The window address of a central cell index itself.
pub open spec fn central_pos(cell_index: usize) -> AbsoluteCellPos {
    AbsoluteCellPos {
        index: cell_index,
        side: Side { horizontal: HorizontalSide::Center, vertical: VerticalSide::Center },
    }
}

/// A register increment that wraps at the top of the range.
pub open spec fn wrap_inc(v: u32) -> u32 {
    if v == u32::MAX {
        0u32
    } else {
        (v + 1) as u32
    }
}

/// A register decrement that wraps at the bottom of the range.
pub open spec fn wrap_dec(v: u32) -> u32 {
    if v == 0 {
        u32::MAX
    } else {
        (v - 1) as u32
    }
}

/// What each primitive register rule does: the named register of the
/// resolved cell is incremented or decremented with wrapping, set to a
/// literal, set to a masked fresh random value, or overwritten with a
/// register read from a second resolved cell; the cell keeps its
/// material and is stamped with the current tick. For any other rule
/// kind this predicate claims nothing.
pub open spec fn spec_register_effect(
    pre: ChunkUpdateContext,
    post: ChunkUpdateContext,
    rule: CellRule,
    cell_index: usize,
    t: RelativeTransformation,
) -> bool {
    match rule {
        CellRule::IncrementRegister { register, pos } => {
            let target = spec_abs_pos(cell_index as int, pos.spec_transform(t));
            let pre_cell = pre.cell_at(target);
            let post_cell = post.cell_at(target);
            &&& post_cell.id == pre_cell.id
            &&& post_cell.last_update == pre.current_tick
            &&& post_cell.registers@ == pre_cell.registers@.update(
                register as int,
                wrap_inc(pre_cell.registers[register as int]),
            )
        },
        CellRule::DecrementRegister { register, pos } => {
            let target = spec_abs_pos(cell_index as int, pos.spec_transform(t));
            let pre_cell = pre.cell_at(target);
            let post_cell = post.cell_at(target);
            &&& post_cell.id == pre_cell.id
            &&& post_cell.last_update == pre.current_tick
            &&& post_cell.registers@ == pre_cell.registers@.update(
                register as int,
                wrap_dec(pre_cell.registers[register as int]),
            )
        },
        CellRule::SetRegister { register, value, pos } => {
            let target = spec_abs_pos(cell_index as int, pos.spec_transform(t));
            let pre_cell = pre.cell_at(target);
            let post_cell = post.cell_at(target);
            &&& post_cell.id == pre_cell.id
            &&& post_cell.last_update == pre.current_tick
            &&& post_cell.registers@ == pre_cell.registers@.update(register as int, value)
        },
        CellRule::SerRegisterRandomMasked { register, mask, pos } => {
            let target = spec_abs_pos(cell_index as int, pos.spec_transform(t));
            let pre_cell = pre.cell_at(target);
            let post_cell = post.cell_at(target);
            let drawn = xorshift_step(pre.center.spec_rng()[cell_index as int]);
            &&& post_cell.id == pre_cell.id
            &&& post_cell.last_update == pre.current_tick
            &&& post_cell.registers@ == pre_cell.registers@.update(
                register as int,
                (drawn as u32) & mask,
            )
        },
        CellRule::MoveRegister { source_register, source_cell, target_register, target_cell } => {
            let source = spec_abs_pos(cell_index as int, source_cell.spec_transform(t));
            let target = spec_abs_pos(cell_index as int, target_cell.spec_transform(t));
            let pre_cell = pre.cell_at(target);
            let post_cell = post.cell_at(target);
            &&& post_cell.id == pre_cell.id
            &&& post_cell.last_update == pre.current_tick
            &&& post_cell.registers@ == pre_cell.registers@.update(
                target_register as int,
                pre.cell_at(source).registers[source_register as int],
            )
        },
        _ => true,
    }
}

/// Whether a rule node is one of the primitive register operations.
pub open spec fn is_register_rule(rule: CellRule) -> bool {
    ||| rule matches CellRule::IncrementRegister { .. }
    ||| rule matches CellRule::DecrementRegister { .. }
    ||| rule matches CellRule::SetRegister { .. }
    ||| rule matches CellRule::SerRegisterRandomMasked { .. }
    ||| rule matches CellRule::MoveRegister { .. }
}

/// What one step toward a target is: one closer, or in place at the
/// target.
pub open spec fn spec_move_towards(value: int, target: int) -> int {
    if value < target {
        value + 1
    } else if value > target {
        value - 1
    } else {
        value
    }
}

/// Move a coordinate one unit toward `target`.
pub fn move_towards(value: i16, target: i16) -> (r: i16)
    ensures
        r == spec_move_towards(value as int, target as int),
{
    if value < target {
        value + 1
    } else if value > target {
        value - 1
    } else {
        value
    }
}

} // verus!

use crate::cell::Cell;
use crate::chunk::Chunk;
use crate::config::CellsTemplate;

verus! {

/// One pass's working set: the centre chunk being iterated, its eight
/// neighbours, the catalog, and the tick that every write is stamped with.
/// The nine chunks are owned exclusively for the duration of the pass.
pub struct ChunkUpdateContext<'a> {
    pub cells_template: &'a CellsTemplate,
    pub current_tick: u32,
    pub center: Chunk,
    pub left: Chunk,
    pub right: Chunk,
    pub top: Chunk,
    pub bottom: Chunk,
    pub left_top: Chunk,
    pub right_top: Chunk,
    pub left_bottom: Chunk,
    pub right_bottom: Chunk,
}

/// Every material id stored in a chunk names one of the catalog's
/// `ncells` entries.
pub open spec fn chunk_ids_valid(c: Chunk, ncells: int) -> bool {
    forall|i: int| 0 <= i < c.spec_data().len() ==> (#[trigger] c.spec_data()[i]).id < ncells
}

/// Every cell of `post` is either exactly its `pre` value or carries the
/// stamp `tick`: nothing is written without being stamped.
pub open spec fn data_evolved(pre: Seq<Cell>, post: Seq<Cell>, tick: u32) -> bool {
    &&& post.len() == pre.len()
    &&& forall|i: int| 0 <= i < post.len() ==> post[i] == pre[i] || (#[trigger] post[i]).last_update == tick
}

/// Change detection: a chunk whose stored cells changed has been marked
/// for update and redraw.
pub open spec fn chunk_change_flagged(pre: Chunk, post: Chunk) -> bool {
    post.spec_data() != pre.spec_data() ==> post.spec_should_update()
        && post.spec_should_redraw()
}

/// The scheduling flags only ever rise while rules run.
pub open spec fn flags_monotone(pre: Chunk, post: Chunk) -> bool {
    &&& (pre.spec_should_update() ==> post.spec_should_update())
    &&& (pre.spec_should_redraw() ==> post.spec_should_redraw())
}

impl<'a> ChunkUpdateContext<'a> {
    /// The number of materials in the catalog this context runs under.
    pub open spec fn ncells(self) -> int {
        self.cells_template.cells@.len() as int
    }

    /// The chunk that a side of the window names.
    pub open spec fn chunk_at(self, side: Side) -> Chunk {
        match (side.horizontal, side.vertical) {
            (HorizontalSide::Left, VerticalSide::Top) => self.left_top,
            (HorizontalSide::Right, VerticalSide::Top) => self.right_top,
            (HorizontalSide::Left, VerticalSide::Bottom) => self.left_bottom,
            (HorizontalSide::Right, VerticalSide::Bottom) => self.right_bottom,
            (HorizontalSide::Left, VerticalSide::Center) => self.left,
            (HorizontalSide::Right, VerticalSide::Center) => self.right,
            (HorizontalSide::Center, VerticalSide::Top) => self.top,
            (HorizontalSide::Center, VerticalSide::Bottom) => self.bottom,
            (HorizontalSide::Center, VerticalSide::Center) => self.center,
        }
    }

    /// The context with the chunk at `side` replaced.
    pub open spec fn with_chunk(self, side: Side, c: Chunk) -> Self {
        match (side.horizontal, side.vertical) {
            (HorizontalSide::Left, VerticalSide::Top) => Self { left_top: c, ..self },
            (HorizontalSide::Right, VerticalSide::Top) => Self { right_top: c, ..self },
            (HorizontalSide::Left, VerticalSide::Bottom) => Self { left_bottom: c, ..self },
            (HorizontalSide::Right, VerticalSide::Bottom) => Self { right_bottom: c, ..self },
            (HorizontalSide::Left, VerticalSide::Center) => Self { left: c, ..self },
            (HorizontalSide::Right, VerticalSide::Center) => Self { right: c, ..self },
            (HorizontalSide::Center, VerticalSide::Top) => Self { top: c, ..self },
            (HorizontalSide::Center, VerticalSide::Bottom) => Self { bottom: c, ..self },
            (HorizontalSide::Center, VerticalSide::Center) => Self { center: c, ..self },
        }
    }

    /// The cell at a window address.
    pub open spec fn cell_at(self, pos: AbsoluteCellPos) -> Cell {
        self.chunk_at(pos.side).spec_data()[pos.index as int]
    }

    /// Every material id stored anywhere in the window names a catalog
    /// entry.
    pub open spec fn ids_valid(self) -> bool {
        &&& chunk_ids_valid(self.center, self.ncells())
        &&& chunk_ids_valid(self.left, self.ncells())
        &&& chunk_ids_valid(self.right, self.ncells())
        &&& chunk_ids_valid(self.top, self.ncells())
        &&& chunk_ids_valid(self.bottom, self.ncells())
        &&& chunk_ids_valid(self.left_top, self.ncells())
        &&& chunk_ids_valid(self.right_top, self.ncells())
        &&& chunk_ids_valid(self.left_bottom, self.ncells())
        &&& chunk_ids_valid(self.right_bottom, self.ncells())
    }

    pub open spec fn wf(self) -> bool {
        &&& self.cells_template.wf()
        &&& self.center.wf()
        &&& self.left.wf()
        &&& self.right.wf()
        &&& self.top.wf()
        &&& self.bottom.wf()
        &&& self.left_top.wf()
        &&& self.right_top.wf()
        &&& self.left_bottom.wf()
        &&& self.right_bottom.wf()
        &&& self.ids_valid()
    }
}

/// What one evaluation step of the rule engine may do to the window:
/// every write is stamped with the current tick, the neighbours' random
/// states are untouched, the flags only rise, and the catalog and the
/// tick stay what they were.
pub open spec fn rule_step(pre: ChunkUpdateContext, post: ChunkUpdateContext) -> bool {
    &&& post.cells_template == pre.cells_template
    &&& post.current_tick == pre.current_tick
    &&& data_evolved(pre.center.spec_data(), post.center.spec_data(), pre.current_tick)
    &&& data_evolved(pre.left.spec_data(), post.left.spec_data(), pre.current_tick)
    &&& data_evolved(pre.right.spec_data(), post.right.spec_data(), pre.current_tick)
    &&& data_evolved(pre.top.spec_data(), post.top.spec_data(), pre.current_tick)
    &&& data_evolved(pre.bottom.spec_data(), post.bottom.spec_data(), pre.current_tick)
    &&& data_evolved(pre.left_top.spec_data(), post.left_top.spec_data(), pre.current_tick)
    &&& data_evolved(pre.right_top.spec_data(), post.right_top.spec_data(), pre.current_tick)
    &&& data_evolved(pre.left_bottom.spec_data(), post.left_bottom.spec_data(), pre.current_tick)
    &&& data_evolved(
        pre.right_bottom.spec_data(),
        post.right_bottom.spec_data(),
        pre.current_tick,
    )
    &&& flags_monotone(pre.center, post.center)
    &&& flags_monotone(pre.left, post.left)
    &&& flags_monotone(pre.right, post.right)
    &&& flags_monotone(pre.top, post.top)
    &&& flags_monotone(pre.bottom, post.bottom)
    &&& flags_monotone(pre.left_top, post.left_top)
    &&& flags_monotone(pre.right_top, post.right_top)
    &&& flags_monotone(pre.left_bottom, post.left_bottom)
    &&& flags_monotone(pre.right_bottom, post.right_bottom)
    &&& chunk_change_flagged(pre.center, post.center)
    &&& chunk_change_flagged(pre.left, post.left)
    &&& chunk_change_flagged(pre.right, post.right)
    &&& chunk_change_flagged(pre.top, post.top)
    &&& chunk_change_flagged(pre.bottom, post.bottom)
    &&& chunk_change_flagged(pre.left_top, post.left_top)
    &&& chunk_change_flagged(pre.right_top, post.right_top)
    &&& chunk_change_flagged(pre.left_bottom, post.left_bottom)
    &&& chunk_change_flagged(pre.right_bottom, post.right_bottom)
    &&& post.center.spec_rng().len() == pre.center.spec_rng().len()
    &&& post.left.spec_rng() == pre.left.spec_rng()
    &&& post.right.spec_rng() == pre.right.spec_rng()
    &&& post.top.spec_rng() == pre.top.spec_rng()
    &&& post.bottom.spec_rng() == pre.bottom.spec_rng()
    &&& post.left_top.spec_rng() == pre.left_top.spec_rng()
    &&& post.right_top.spec_rng() == pre.right_top.spec_rng()
    &&& post.left_bottom.spec_rng() == pre.left_bottom.spec_rng()
    &&& post.right_bottom.spec_rng() == pre.right_bottom.spec_rng()
}

/// Rule steps compose: a chain of stamped-or-unchanged steps is itself a
/// stamped-or-unchanged step.
pub proof fn lemma_rule_step_trans(
    a: ChunkUpdateContext,
    b: ChunkUpdateContext,
    c: ChunkUpdateContext,
)
    requires
        rule_step(a, b),
        rule_step(b, c),
    ensures
        rule_step(a, c),
{
}

} // verus!

use crate::cell::CellId;
use crate::config::{CellRule, ConditionArg, ConditionBinaryOp, RuleCondition};

verus! {

impl<'a> ChunkUpdateContext<'a> {
    pub fn get_chunk(&self, side: Side) -> (r: &Chunk)
        ensures
            r == &self.chunk_at(side),
    {
        match (side.horizontal, side.vertical) {
            (HorizontalSide::Left, VerticalSide::Top) => &self.left_top,
            (HorizontalSide::Right, VerticalSide::Top) => &self.right_top,
            (HorizontalSide::Left, VerticalSide::Bottom) => &self.left_bottom,
            (HorizontalSide::Right, VerticalSide::Bottom) => &self.right_bottom,
            (HorizontalSide::Left, VerticalSide::Center) => &self.left,
            (HorizontalSide::Right, VerticalSide::Center) => &self.right,
            (HorizontalSide::Center, VerticalSide::Top) => &self.top,
            (HorizontalSide::Center, VerticalSide::Bottom) => &self.bottom,
            (HorizontalSide::Center, VerticalSide::Center) => &self.center,
        }
    }

    pub fn get_chunk_mut(&mut self, side: Side) -> (r: &mut Chunk)
        ensures
            *r == old(self).chunk_at(side),
            *final(self) == old(self).with_chunk(side, *final(r)),
    {
        match (side.horizontal, side.vertical) {
            (HorizontalSide::Left, VerticalSide::Top) => &mut self.left_top,
            (HorizontalSide::Right, VerticalSide::Top) => &mut self.right_top,
            (HorizontalSide::Left, VerticalSide::Bottom) => &mut self.left_bottom,
            (HorizontalSide::Right, VerticalSide::Bottom) => &mut self.right_bottom,
            (HorizontalSide::Left, VerticalSide::Center) => &mut self.left,
            (HorizontalSide::Right, VerticalSide::Center) => &mut self.right,
            (HorizontalSide::Center, VerticalSide::Top) => &mut self.top,
            (HorizontalSide::Center, VerticalSide::Bottom) => &mut self.bottom,
            (HorizontalSide::Center, VerticalSide::Center) => &mut self.center,
        }
    }

    pub fn get_cell(&self, pos: AbsoluteCellPos) -> (r: Cell)
        requires
            self.wf(),
            pos.wf(),
        ensures
            r == self.cell_at(pos),
            r.id < self.ncells(),
    {
        self.get_chunk(pos.side).get_by_index(pos.index)
    }

    /// Write one cell of the window, stamped with the current tick.
    pub fn set_cell(&mut self, pos: AbsoluteCellPos, cell: Cell)
        requires
            old(self).wf(),
            pos.wf(),
            cell.id < old(self).ncells(),
        ensures
            final(self).wf(),
            rule_step(*old(self), *final(self)),
            final(self).chunk_at(pos.side).spec_data() == old(self).chunk_at(
                pos.side,
            ).spec_data().update(
                pos.index as int,
                (Cell { last_update: old(self).current_tick, ..cell }),
            ),
            forall|s: Side| s != pos.side ==> #[trigger] final(self).chunk_at(s) == old(
                self,
            ).chunk_at(s),
            final(self).chunk_at(pos.side).spec_rng() == old(self).chunk_at(pos.side).spec_rng(),
            old(self).cell_at(pos) == (Cell { last_update: old(self).current_tick, ..cell })
                ==> *final(self) == *old(self),
            old(self).cell_at(pos) != (Cell { last_update: old(self).current_tick, ..cell })
                ==> final(self).chunk_at(pos.side).spec_should_update() && final(self).chunk_at(
                pos.side,
            ).spec_should_redraw(),
    {
        let ghost pre = *self;
        let mut cell = cell;
        cell.last_update = self.current_tick;
        match (pos.side.horizontal, pos.side.vertical) {
            (HorizontalSide::Left, VerticalSide::Top) => self.left_top.set_by_index(
                pos.index,
                cell,
            ),
            (HorizontalSide::Right, VerticalSide::Top) => self.right_top.set_by_index(
                pos.index,
                cell,
            ),
            (HorizontalSide::Left, VerticalSide::Bottom) => self.left_bottom.set_by_index(
                pos.index,
                cell,
            ),
            (HorizontalSide::Right, VerticalSide::Bottom) => self.right_bottom.set_by_index(
                pos.index,
                cell,
            ),
            (HorizontalSide::Left, VerticalSide::Center) => self.left.set_by_index(
                pos.index,
                cell,
            ),
            (HorizontalSide::Right, VerticalSide::Center) => self.right.set_by_index(
                pos.index,
                cell,
            ),
            (HorizontalSide::Center, VerticalSide::Top) => self.top.set_by_index(
                pos.index,
                cell,
            ),
            (HorizontalSide::Center, VerticalSide::Bottom) => self.bottom.set_by_index(
                pos.index,
                cell,
            ),
            (HorizontalSide::Center, VerticalSide::Center) => self.center.set_by_index(
                pos.index,
                cell,
            ),
        }
        proof {
            assert(data_evolved(
                pre.chunk_at(pos.side).spec_data(),
                self.chunk_at(pos.side).spec_data(),
                pre.current_tick,
            ));
        }
    }

    /// Exchange two cells of the window; both copies are stamped.
    pub fn swap_cells(&mut self, a: AbsoluteCellPos, b: AbsoluteCellPos)
        requires
            old(self).wf(),
            a.wf(),
            b.wf(),
        ensures
            final(self).wf(),
            rule_step(*old(self), *final(self)),
            final(self).cell_at(b) == (Cell {
                last_update: old(self).current_tick,
                ..old(self).cell_at(a)
            }),
            a != b ==> final(self).cell_at(a) == (Cell {
                last_update: old(self).current_tick,
                ..old(self).cell_at(b)
            }),
    {
        let ghost pre = *self;
        let cell_a = self.get_cell(a);
        let cell_b = self.get_cell(b);

        self.set_cell(a, cell_b);
        proof {
            let ghost mid = *self;
            assert(rule_step(pre, mid));
        }
        let ghost mid = *self;
        self.set_cell(b, cell_a);
        proof {
            lemma_rule_step_trans(pre, mid, *self);
        }
    }
}

/// Whether a material id occurs in a whitelist.
fn contains_id(list: &Vec<CellId>, id: CellId) -> (r: bool)
    ensures
        r == list@.contains(id),
{
    let mut i: usize = 0;
    while i < list.len()
        invariant
            i <= list@.len(),
            forall|j: int| 0 <= j < i ==> list@[j] != id,
        decreases list@.len() - i,
    {
        if list[i] == id {
            return true;
        }
        i += 1;
    }
    false
}

} // verus!

verus! {

impl<'a> ChunkUpdateContext<'a> {
    /// The value of a comparison operand: a literal, or the named register
    /// of the cell at the transformed offset.
    pub open spec fn spec_calc_value(
        self,
        value: ConditionArg,
        cell_index: int,
        t: RelativeTransformation,
    ) -> u32 {
        match value {
            ConditionArg::Value(v) => v,
            ConditionArg::Register { pos, register } => self.cell_at(
                spec_abs_pos(cell_index, pos.spec_transform(t)),
            ).registers[register as int],
        }
    }

    /// What a condition tree means, evaluated for the cell at
    /// `cell_index` under the accumulated transformation.
    pub open spec fn spec_check_condition(
        self,
        condition: RuleCondition,
        cell_index: int,
        t: RelativeTransformation,
    ) -> bool
        decreases condition,
    {
        match condition {
            RuleCondition::And(conditions) => forall|i: int|
                0 <= i < conditions@.len() ==> self.spec_check_condition(
                    #[trigger] conditions@[i],
                    cell_index,
                    t,
                ),
            RuleCondition::Or(conditions) => exists|i: int|
                0 <= i < conditions@.len() && self.spec_check_condition(
                    #[trigger] conditions@[i],
                    cell_index,
                    t,
                ),
            RuleCondition::Not(condition) => !self.spec_check_condition(*condition, cell_index, t),
            RuleCondition::RelativeCell { pos, cell_id } => self.cell_at(
                spec_abs_pos(cell_index, pos.spec_transform(t)),
            ).id == cell_id,
            RuleCondition::RelativeCellNot { pos, cell_id } => self.cell_at(
                spec_abs_pos(cell_index, pos.spec_transform(t)),
            ).id != cell_id,
            RuleCondition::RelativeCellIn { pos, cell_id_list } => cell_id_list@.contains(
                self.cell_at(spec_abs_pos(cell_index, pos.spec_transform(t))).id,
            ),
            RuleCondition::RelativeCellNotIn { pos, cell_id_list } => !cell_id_list@.contains(
                self.cell_at(spec_abs_pos(cell_index, pos.spec_transform(t))).id,
            ),
            RuleCondition::BinaryOp { op, a, b } => {
                let value_a = self.spec_calc_value(a, cell_index, t);
                let value_b = self.spec_calc_value(b, cell_index, t);
                match op {
                    ConditionBinaryOp::Eq => value_a == value_b,
                    ConditionBinaryOp::NotEq => value_a != value_b,
                    ConditionBinaryOp::Less => value_a < value_b,
                    ConditionBinaryOp::LessEq => value_a <= value_b,
                    ConditionBinaryOp::Greater => value_a > value_b,
                    ConditionBinaryOp::GreaterEq => value_a >= value_b,
                }
            },
            RuleCondition::Always => true,
        }
    }

    pub fn calc_value(
        &self,
        value: &ConditionArg,
        cell_index: usize,
        transformation: RelativeTransformation,
    ) -> (r: u32)
        requires
            self.wf(),
            value.wf(),
            cell_index < CHUNK_AREA,
        ensures
            r == self.spec_calc_value(*value, cell_index as int, transformation),
    {
        match value {
            ConditionArg::Value(v) => *v,
            ConditionArg::Register { pos, register } => {
                let pos = get_absolute_cell_pos(cell_index, pos.transform(transformation));
                self.get_cell(pos).registers[*register as usize]
            },
        }
    }

    /// Evaluate a condition tree; the result is exactly what the
    /// condition means.
    pub fn check_condition(
        &self,
        condition: &RuleCondition,
        cell_index: usize,
        transformation: RelativeTransformation,
    ) -> (r: bool)
        requires
            self.wf(),
            condition.wf(),
            cell_index < CHUNK_AREA,
        ensures
            r == self.spec_check_condition(*condition, cell_index as int, transformation),
        decreases *condition,
    {
        match condition {
            RuleCondition::RelativeCell { pos, cell_id } => {
                let pos = get_absolute_cell_pos(cell_index, pos.transform(transformation));
                let cell = self.get_cell(pos);
                cell.id == *cell_id
            },
            RuleCondition::RelativeCellNot { pos, cell_id } => {
                let pos = get_absolute_cell_pos(cell_index, pos.transform(transformation));
                let cell = self.get_cell(pos);
                cell.id != *cell_id
            },
            RuleCondition::RelativeCellIn { pos, cell_id_list } => {
                let pos = get_absolute_cell_pos(cell_index, pos.transform(transformation));
                let cell = self.get_cell(pos);
                contains_id(cell_id_list, cell.id)
            },
            RuleCondition::RelativeCellNotIn { pos, cell_id_list } => {
                let pos = get_absolute_cell_pos(cell_index, pos.transform(transformation));
                let cell = self.get_cell(pos);
                !contains_id(cell_id_list, cell.id)
            },
            RuleCondition::And(conditions) => {
                let mut i: usize = 0;
                while i < conditions.len()
                    invariant
                        self.wf(),
                        condition.wf(),
                        cell_index < CHUNK_AREA,
                        *condition == RuleCondition::And(*conditions),
                        i <= conditions@.len(),
                        forall|j: int|
                            0 <= j < i ==> self.spec_check_condition(
                                #[trigger] conditions@[j],
                                cell_index as int,
                                transformation,
                            ),
                    decreases conditions@.len() - i,
                {
                    proof {
                        let vs = (*condition)->And_0;
                        assert(*conditions == vs);
                        assert(decreases_to!(*condition => vs));
                        assert(decreases_to!(vs => vs@));
                        vstd::seq::axiom_seq_index_decreases(vs@, i as int);
                        assert(decreases_to!(*condition => conditions@[i as int]));
                        assert(condition.wf());
                        assert(conditions@[i as int].wf());
                    }
                    if !self.check_condition(&conditions[i], cell_index, transformation) {
                        proof {
                            assert(!self.spec_check_condition(
                                *condition,
                                cell_index as int,
                                transformation,
                            )) by {
                                assert(!self.spec_check_condition(
                                    conditions@[i as int],
                                    cell_index as int,
                                    transformation,
                                ));
                            }
                        }
                        return false;
                    }
                    i += 1;
                }
                true
            },
            RuleCondition::Or(conditions) => {
                let mut i: usize = 0;
                while i < conditions.len()
                    invariant
                        self.wf(),
                        condition.wf(),
                        cell_index < CHUNK_AREA,
                        *condition == RuleCondition::Or(*conditions),
                        i <= conditions@.len(),
                        forall|j: int|
                            0 <= j < i ==> !self.spec_check_condition(
                                #[trigger] conditions@[j],
                                cell_index as int,
                                transformation,
                            ),
                    decreases conditions@.len() - i,
                {
                    proof {
                        let vs = (*condition)->Or_0;
                        assert(*conditions == vs);
                        assert(decreases_to!(*condition => vs));
                        assert(decreases_to!(vs => vs@));
                        vstd::seq::axiom_seq_index_decreases(vs@, i as int);
                        assert(decreases_to!(*condition => conditions@[i as int]));
                        assert(condition.wf());
                        assert(conditions@[i as int].wf());
                    }
                    if self.check_condition(&conditions[i], cell_index, transformation) {
                        proof {
                            assert(self.spec_check_condition(
                                *condition,
                                cell_index as int,
                                transformation,
                            )) by {
                                assert(self.spec_check_condition(
                                    conditions@[i as int],
                                    cell_index as int,
                                    transformation,
                                ));
                            }
                        }
                        return true;
                    }
                    i += 1;
                }
                false
            },
            RuleCondition::Not(inner) => !self.check_condition(
                inner,
                cell_index,
                transformation,
            ),
            RuleCondition::BinaryOp { op, a, b } => {
                let value_a = self.calc_value(a, cell_index, transformation);
                let value_b = self.calc_value(b, cell_index, transformation);

                match op {
                    ConditionBinaryOp::Eq => value_a == value_b,
                    ConditionBinaryOp::NotEq => value_a != value_b,
                    ConditionBinaryOp::Less => value_a < value_b,
                    ConditionBinaryOp::LessEq => value_a <= value_b,
                    ConditionBinaryOp::Greater => value_a > value_b,
                    ConditionBinaryOp::GreaterEq => value_a >= value_b,
                }
            },
            RuleCondition::Always => true,
        }
    }
}

} // verus!

use crate::outside::random_u32;
use crate::random::xorshift_step;

verus! {

/// What one full pass over a context's centre chunk guarantees: the
/// catalog and the tick are untouched, every cell of the window is
/// either unchanged or stamped with the current tick, the neighbours'
/// random streams are untouched, and if the centre chunk still wants an
/// update, all eight neighbours have been woken too.
pub open spec fn process_post(pre: ChunkUpdateContext, post: ChunkUpdateContext) -> bool {
    &&& post.cells_template == pre.cells_template
    &&& post.current_tick == pre.current_tick
    &&& data_evolved(pre.center.spec_data(), post.center.spec_data(), pre.current_tick)
    &&& data_evolved(pre.left.spec_data(), post.left.spec_data(), pre.current_tick)
    &&& data_evolved(pre.right.spec_data(), post.right.spec_data(), pre.current_tick)
    &&& data_evolved(pre.top.spec_data(), post.top.spec_data(), pre.current_tick)
    &&& data_evolved(pre.bottom.spec_data(), post.bottom.spec_data(), pre.current_tick)
    &&& data_evolved(pre.left_top.spec_data(), post.left_top.spec_data(), pre.current_tick)
    &&& data_evolved(pre.right_top.spec_data(), post.right_top.spec_data(), pre.current_tick)
    &&& data_evolved(pre.left_bottom.spec_data(), post.left_bottom.spec_data(), pre.current_tick)
    &&& data_evolved(
        pre.right_bottom.spec_data(),
        post.right_bottom.spec_data(),
        pre.current_tick,
    )
    &&& post.left.spec_rng() == pre.left.spec_rng()
    &&& post.right.spec_rng() == pre.right.spec_rng()
    &&& post.top.spec_rng() == pre.top.spec_rng()
    &&& post.bottom.spec_rng() == pre.bottom.spec_rng()
    &&& post.left_top.spec_rng() == pre.left_top.spec_rng()
    &&& post.right_top.spec_rng() == pre.right_top.spec_rng()
    &&& post.left_bottom.spec_rng() == pre.left_bottom.spec_rng()
    &&& post.right_bottom.spec_rng() == pre.right_bottom.spec_rng()
    &&& chunk_change_flagged(pre.center, post.center)
    &&& chunk_change_flagged(pre.left, post.left)
    &&& chunk_change_flagged(pre.right, post.right)
    &&& chunk_change_flagged(pre.top, post.top)
    &&& chunk_change_flagged(pre.bottom, post.bottom)
    &&& chunk_change_flagged(pre.left_top, post.left_top)
    &&& chunk_change_flagged(pre.right_top, post.right_top)
    &&& chunk_change_flagged(pre.left_bottom, post.left_bottom)
    &&& chunk_change_flagged(pre.right_bottom, post.right_bottom)
    &&& post.center.spec_should_update() ==> {
        &&& post.left.spec_should_update()
        &&& post.right.spec_should_update()
        &&& post.top.spec_should_update()
        &&& post.bottom.spec_should_update()
        &&& post.left_top.spec_should_update()
        &&& post.right_top.spec_should_update()
        &&& post.left_bottom.spec_should_update()
        &&& post.right_bottom.spec_should_update()
    }
}

impl<'a> ChunkUpdateContext<'a> {
    /// Draw one value from the evaluated cell's private random stream.
    fn draw_random(&mut self, cell_index: usize) -> (r: u64)
        requires
            old(self).wf(),
            cell_index < CHUNK_AREA,
        ensures
            final(self).wf(),
            rule_step(*old(self), *final(self)),
            r == xorshift_step(old(self).center.spec_rng()[cell_index as int]),
            final(self).center.spec_data() == old(self).center.spec_data(),
            final(self).center.spec_should_update() == old(self).center.spec_should_update(),
            final(self).center.spec_should_redraw() == old(self).center.spec_should_redraw(),
            final(self).left == old(self).left,
            final(self).right == old(self).right,
            final(self).top == old(self).top,
            final(self).bottom == old(self).bottom,
            final(self).left_top == old(self).left_top,
            final(self).right_top == old(self).right_top,
            final(self).left_bottom == old(self).left_bottom,
            final(self).right_bottom == old(self).right_bottom,
    {
        self.center.get_random_value(cell_index)
    }

    /// Evaluate one rule node for the cell at `cell_index`, under the
    /// accumulated transformation, and report whether it succeeded. Every
    /// write it performs is stamped with the current tick and the flags
    /// only rise: the pass relation `rule_step` holds whatever the node
    /// did.
    /// Perform one primitive register operation: resolve the offsets,
    /// read the cells, rewrite the named register, and write the result
    /// back stamped with the current tick.
    #[verifier::rlimit(100)]
    fn apply_register_rule(
        &mut self,
        rule: &CellRule,
        cell_index: usize,
        transformation: RelativeTransformation,
    ) -> (r: bool)
        requires
            old(self).wf(),
            rule.wf(old(self).ncells()),
            is_register_rule(*rule),
            cell_index < CHUNK_AREA,
        ensures
            final(self).wf(),
            rule_step(*old(self), *final(self)),
            r,
            spec_register_effect(
                *old(self),
                *final(self),
                *rule,
                cell_index,
                transformation,
            ),
    {
        match rule {
            CellRule::IncrementRegister { register, pos } => {
                let register_index = *register as usize;
                let pos = get_absolute_cell_pos(cell_index, pos.transform(transformation));
                let mut cell = self.get_cell(pos);
                cell.registers[register_index] = cell.registers[register_index].wrapping_add(1);
                self.set_cell(pos, cell);

                true
            },
            CellRule::DecrementRegister { register, pos } => {
                let register_index = *register as usize;
                let pos = get_absolute_cell_pos(cell_index, pos.transform(transformation));
                let mut cell = self.get_cell(pos);
                cell.registers[register_index] = cell.registers[register_index].wrapping_sub(1);
                self.set_cell(pos, cell);

                true
            },
            CellRule::SetRegister { register, value, pos } => {
                let register_index = *register as usize;
                let pos = get_absolute_cell_pos(cell_index, pos.transform(transformation));
                let mut cell = self.get_cell(pos);
                cell.registers[register_index] = *value;
                self.set_cell(pos, cell);

                true
            },
            CellRule::SerRegisterRandomMasked { register, mask, pos } => {
                let register_index = *register as usize;

                let pos = get_absolute_cell_pos(cell_index, pos.transform(transformation));
                let random_value = self.draw_random(cell_index);
                let mut cell = self.get_cell(pos);
                cell.registers[register_index] = (#[verifier::truncate] (random_value as u32))
                    & *mask;
                self.set_cell(pos, cell);

                true
            },
            CellRule::MoveRegister { source_register, source_cell, target_register, target_cell } => {
                let source_register_index = *source_register as usize;
                let target_register_index = *target_register as usize;

                let source_pos = get_absolute_cell_pos(
                    cell_index,
                    source_cell.transform(transformation),
                );
                let target_pos = get_absolute_cell_pos(
                    cell_index,
                    target_cell.transform(transformation),
                );

                let source_cell = self.get_cell(source_pos);
                let mut target_cell = self.get_cell(target_pos);

                target_cell.registers[target_register_index] =
                    source_cell.registers[source_register_index];

                self.set_cell(target_pos, target_cell);

                true
            },
            _ => {
                proof {
                    assert(false);
                }
                false
            },
        }
    }

    #[verifier::rlimit(100)]
    pub fn try_apply_rule(
        &mut self,
        rule: &CellRule,
        cell_index: usize,
        transformation: RelativeTransformation,
    ) -> (r: bool)
        requires
            old(self).wf(),
            rule.wf(old(self).ncells()),
            cell_index < CHUNK_AREA,
        ensures
            final(self).wf(),
            rule_step(*old(self), *final(self)),
            *rule == CellRule::Idle ==> r && *final(self) == *old(self),
            (*rule matches CellRule::SwapWith { pos } ==> r && final(self).cell_at(
                spec_abs_pos(cell_index as int, pos.spec_transform(transformation)),
            ) == (Cell {
                last_update: old(self).current_tick,
                ..old(self).cell_at(
                    AbsoluteCellPos {
                        index: cell_index,
                        side: Side {
                            horizontal: HorizontalSide::Center,
                            vertical: VerticalSide::Center,
                        },
                    },
                )
            })),
            (*rule matches CellRule::InitCell { pos, cell_id } ==> r && final(self).cell_at(
                spec_abs_pos(cell_index as int, pos.spec_transform(transformation)),
            ) == (Cell {
                last_update: old(self).current_tick,
                ..old(self).cells_template.cells@[cell_id as int].spec_init()
            })),
            (*rule matches CellRule::SwapWithIds { pos, match_ids } ==> {
                let target = spec_abs_pos(cell_index as int, pos.spec_transform(transformation));
                let target_id = old(self).cell_at(target).id;
                &&& (!match_ids@.contains(target_id) ==> !r && *final(self) == *old(self))
                &&& (match_ids@.contains(target_id) ==> r && final(self).cell_at(target) == (
                Cell {
                    last_update: old(self).current_tick,
                    ..old(self).cell_at(central_pos(cell_index))
                }) && (target != central_pos(cell_index) ==> final(self).cell_at(
                    central_pos(cell_index),
                ) == (Cell {
                    last_update: old(self).current_tick,
                    ..old(self).cell_at(target)
                })))
            }),
            (*rule matches CellRule::FirstSuccess(list)
                ==> (list@.len() == 0 ==> !r && *final(self) == *old(self))),
            (*rule matches CellRule::If { condition, action: _, else_action: None }
                ==> (!old(self).spec_check_condition(condition, cell_index as int, transformation)
                ==> !r && *final(self) == *old(self))),
            (*rule matches CellRule::MirrorXIf { condition, rule: _ }
                ==> (!old(self).spec_check_condition(condition, cell_index as int, transformation)
                ==> !r && *final(self) == *old(self))),
            (*rule matches CellRule::MirrorYIf { condition, rule: _ }
                ==> (!old(self).spec_check_condition(condition, cell_index as int, transformation)
                ==> !r && *final(self) == *old(self))),
            (*rule matches CellRule::MirrorDiagonalIf { condition, rule: _ }
                ==> (!old(self).spec_check_condition(condition, cell_index as int, transformation)
                ==> !r && *final(self) == *old(self))),
            (rule matches CellRule::TryAll(_)) ==> r,
            (rule matches CellRule::ApplyAndContinue(_)) ==> !r,
            (rule matches CellRule::IncrementRegister { .. }) ==> r,
            (rule matches CellRule::DecrementRegister { .. }) ==> r,
            (rule matches CellRule::SetRegister { .. }) ==> r,
            (rule matches CellRule::SerRegisterRandomMasked { .. }) ==> r,
            (rule matches CellRule::MoveRegister { .. }) ==> r,
            spec_register_effect(
                *old(self),
                *final(self),
                *rule,
                cell_index,
                transformation,
            ),
        decreases *rule,
    {
        let ghost pre = *self;
        match rule {
            CellRule::FirstSuccess(list) => {
                let mut i: usize = 0;
                while i < list.len()
                    invariant
                        self.wf(),
                        rule_step(pre, *self),
                        pre.wf(),
                        pre == *old(self),
                        list@.len() == 0 ==> *self == *old(self),
                        *rule == CellRule::FirstSuccess(*list),
                        rule.wf(pre.ncells()),
                        cell_index < CHUNK_AREA,
                        i <= list@.len(),
                    decreases list@.len() - i,
                {
                    proof {
                        let vs = (*rule)->FirstSuccess_0;
                        assert(decreases_to!(*rule => vs));
                        assert(decreases_to!(vs => vs@));
                        vstd::seq::axiom_seq_index_decreases(vs@, i as int);
                        assert(list@[i as int].wf(self.ncells()));
                    }
                    let ghost mid = *self;
                    if self.try_apply_rule(&list[i], cell_index, transformation) {
                        proof {
                            lemma_rule_step_trans(pre, mid, *self);
                        }
                        return true;
                    }
                    proof {
                        lemma_rule_step_trans(pre, mid, *self);
                    }
                    i += 1;
                }

                false
            },
            CellRule::If { condition, action, else_action } => {
                if self.check_condition(condition, cell_index, transformation) {
                    return self.try_apply_rule(&**action, cell_index, transformation);
                }

                if let Some(else_action) = else_action {
                    return self.try_apply_rule(&**else_action, cell_index, transformation);
                }

                false
            },
            CellRule::RandomPair(pair) => {
                let random_value = self.draw_random(cell_index);

                let ghost s1 = *self;
                if random_value & 1 == 0 {
                    if self.try_apply_rule(&pair.0, cell_index, transformation) {
                        proof {
                            lemma_rule_step_trans(pre, s1, *self);
                        }
                        return true;
                    }
                    proof {
                        lemma_rule_step_trans(pre, s1, *self);
                    }
                    let ghost s2 = *self;
                    let r = self.try_apply_rule(&pair.1, cell_index, transformation);
                    proof {
                        lemma_rule_step_trans(pre, s2, *self);
                    }
                    r
                } else {
                    if self.try_apply_rule(&pair.1, cell_index, transformation) {
                        proof {
                            lemma_rule_step_trans(pre, s1, *self);
                        }
                        return true;
                    }
                    proof {
                        lemma_rule_step_trans(pre, s1, *self);
                    }
                    let ghost s2 = *self;
                    let r = self.try_apply_rule(&pair.0, cell_index, transformation);
                    proof {
                        lemma_rule_step_trans(pre, s2, *self);
                    }
                    r
                }
            },
            CellRule::ApplyAndContinue(inner) => {
                self.try_apply_rule(&**inner, cell_index, transformation);
                false
            },
            CellRule::SwapWithIds { pos, match_ids } => {
                let pos = get_absolute_cell_pos(cell_index, pos.transform(transformation));
                let cell = self.get_cell(pos);

                if contains_id(match_ids, cell.id) {
                    self.swap_cells(AbsoluteCellPos::central(cell_index), pos);
                    return true;
                }

                false
            },
            CellRule::SymmetryX(inner) => {
                let random_value = self.draw_random(cell_index);

                let ghost s1 = *self;
                if random_value & 1 == 0 {
                    if self.try_apply_rule(&**inner, cell_index, transformation) {
                        proof {
                            lemma_rule_step_trans(pre, s1, *self);
                        }
                        return true;
                    }
                    proof {
                        lemma_rule_step_trans(pre, s1, *self);
                    }
                    let ghost s2 = *self;
                    let r = self.try_apply_rule(&**inner, cell_index, transformation.mirror_x());
                    proof {
                        lemma_rule_step_trans(pre, s2, *self);
                    }
                    r
                } else {
                    if self.try_apply_rule(&**inner, cell_index, transformation.mirror_x()) {
                        proof {
                            lemma_rule_step_trans(pre, s1, *self);
                        }
                        return true;
                    }
                    proof {
                        lemma_rule_step_trans(pre, s1, *self);
                    }
                    let ghost s2 = *self;
                    let r = self.try_apply_rule(&**inner, cell_index, transformation);
                    proof {
                        lemma_rule_step_trans(pre, s2, *self);
                    }
                    r
                }
            },
            CellRule::SymmetryY(inner) => {
                let random_value = self.draw_random(cell_index);

                let ghost s1 = *self;
                if random_value & 1 == 0 {
                    if self.try_apply_rule(&**inner, cell_index, transformation) {
                        proof {
                            lemma_rule_step_trans(pre, s1, *self);
                        }
                        return true;
                    }
                    proof {
                        lemma_rule_step_trans(pre, s1, *self);
                    }
                    let ghost s2 = *self;
                    let r = self.try_apply_rule(&**inner, cell_index, transformation.mirror_y());
                    proof {
                        lemma_rule_step_trans(pre, s2, *self);
                    }
                    r
                } else {
                    if self.try_apply_rule(&**inner, cell_index, transformation.mirror_y()) {
                        proof {
                            lemma_rule_step_trans(pre, s1, *self);
                        }
                        return true;
                    }
                    proof {
                        lemma_rule_step_trans(pre, s1, *self);
                    }
                    let ghost s2 = *self;
                    let r = self.try_apply_rule(&**inner, cell_index, transformation);
                    proof {
                        lemma_rule_step_trans(pre, s2, *self);
                    }
                    r
                }
            },
            CellRule::SymmetryDiagonal(inner) => {
                let random_value = self.draw_random(cell_index);

                let ghost s1 = *self;
                if random_value & 1 == 0 {
                    if self.try_apply_rule(&**inner, cell_index, transformation) {
                        proof {
                            lemma_rule_step_trans(pre, s1, *self);
                        }
                        return true;
                    }
                    proof {
                        lemma_rule_step_trans(pre, s1, *self);
                    }
                    let ghost s2 = *self;
                    let r = self.try_apply_rule(
                        &**inner,
                        cell_index,
                        transformation.mirror_diagonal(),
                    );
                    proof {
                        lemma_rule_step_trans(pre, s2, *self);
                    }
                    r
                } else {
                    if self.try_apply_rule(
                        &**inner,
                        cell_index,
                        transformation.mirror_diagonal(),
                    ) {
                        proof {
                            lemma_rule_step_trans(pre, s1, *self);
                        }
                        return true;
                    }
                    proof {
                        lemma_rule_step_trans(pre, s1, *self);
                    }
                    let ghost s2 = *self;
                    let r = self.try_apply_rule(&**inner, cell_index, transformation);
                    proof {
                        lemma_rule_step_trans(pre, s2, *self);
                    }
                    r
                }
            },
            CellRule::TryAll(list) => {
                let mut i: usize = 0;
                while i < list.len()
                    invariant
                        self.wf(),
                        rule_step(pre, *self),
                        pre.wf(),
                        pre == *old(self),
                        *rule == CellRule::TryAll(*list),
                        rule.wf(pre.ncells()),
                        cell_index < CHUNK_AREA,
                        i <= list@.len(),
                    decreases list@.len() - i,
                {
                    proof {
                        let vs = (*rule)->TryAll_0;
                        assert(decreases_to!(*rule => vs));
                        assert(decreases_to!(vs => vs@));
                        vstd::seq::axiom_seq_index_decreases(vs@, i as int);
                        assert(list@[i as int].wf(self.ncells()));
                    }
                    let ghost mid = *self;
                    self.try_apply_rule(&list[i], cell_index, transformation);
                    proof {
                        lemma_rule_step_trans(pre, mid, *self);
                    }
                    i += 1;
                }

                true
            },
            CellRule::InitCell { pos, cell_id } => {
                let pos = get_absolute_cell_pos(cell_index, pos.transform(transformation));
                let template = self.cells_template;
                self.set_cell(pos, Cell::new(template, *cell_id));

                true
            },
            CellRule::SwapWith { pos } => {
                let pos = get_absolute_cell_pos(cell_index, pos.transform(transformation));
                self.swap_cells(AbsoluteCellPos::central(cell_index), pos);

                true
            },
            CellRule::IncrementRegister { .. } => self.apply_register_rule(
                rule,
                cell_index,
                transformation,
            ),
            CellRule::DecrementRegister { .. } => self.apply_register_rule(
                rule,
                cell_index,
                transformation,
            ),
            CellRule::SetRegister { .. } => self.apply_register_rule(
                rule,
                cell_index,
                transformation,
            ),
            CellRule::MoveRegister { .. } => self.apply_register_rule(
                rule,
                cell_index,
                transformation,
            ),
            CellRule::SerRegisterRandomMasked { .. } => self.apply_register_rule(
                rule,
                cell_index,
                transformation,
            ),
            CellRule::MirrorXIf { condition, rule: inner } => {
                if self.check_condition(condition, cell_index, transformation) {
                    return self.try_apply_rule(
                        &**inner,
                        cell_index,
                        transformation.mirror_x(),
                    );
                }

                false
            },
            CellRule::MirrorYIf { condition, rule: inner } => {
                if self.check_condition(condition, cell_index, transformation) {
                    return self.try_apply_rule(
                        &**inner,
                        cell_index,
                        transformation.mirror_y(),
                    );
                }

                false
            },
            CellRule::MirrorDiagonalIf { condition, rule: inner } => {
                if self.check_condition(condition, cell_index, transformation) {
                    return self.try_apply_rule(
                        &**inner,
                        cell_index,
                        transformation.mirror_diagonal(),
                    );
                }

                false
            },
            CellRule::Idle => true,
        }
    }

    /// Evaluate one cell of the centre chunk: skip it when it was already
    /// written this tick, otherwise run its material's rule tree with the
    /// identity transformation.
    fn update_cell(&mut self, cell_index: usize)
        requires
            old(self).wf(),
            cell_index < CHUNK_AREA,
        ensures
            final(self).wf(),
            rule_step(*old(self), *final(self)),
            old(self).center.spec_data()[cell_index as int].last_update == old(
                self,
            ).current_tick ==> *final(self) == *old(self),
    {
        let cell = self.center.get_by_index(cell_index);
        if cell.last_update == self.current_tick {
            return;
        }
        let template = self.cells_template;
        let cell_config = cell.meta(template);

        self.try_apply_rule(&cell_config.rule, cell_index, RelativeTransformation::identity());
    }

    /// Run one pass over the centre chunk: clear its update flag, evaluate
    /// every cell in a randomly permuted order, and wake all eight
    /// neighbours when the centre saw activity. Every cell of the window
    /// afterwards is either untouched or stamped with the current tick.
    pub fn process(&mut self)
        requires
            old(self).wf(),
        ensures
            final(self).wf(),
            process_post(*old(self), *final(self)),
    {
        self.center.set_should_update(false);
        let ghost pre = *self;

        let update_order_mask = random_u32() as usize;
        let chunk_area_mask = CHUNK_AREA - 1;

        let mut index: usize = 0;
        while index < CHUNK_AREA
            invariant
                self.wf(),
                rule_step(pre, *self),
                pre.wf(),
                pre.center.spec_data() == old(self).center.spec_data(),
                pre.left == old(self).left,
                pre.right == old(self).right,
                pre.top == old(self).top,
                pre.bottom == old(self).bottom,
                pre.left_top == old(self).left_top,
                pre.right_top == old(self).right_top,
                pre.left_bottom == old(self).left_bottom,
                pre.right_bottom == old(self).right_bottom,
                pre.cells_template == old(self).cells_template,
                pre.current_tick == old(self).current_tick,
                chunk_area_mask == 0x3fffusize,
            decreases CHUNK_AREA - index,
        {
            let cell_index = (index ^ update_order_mask) & chunk_area_mask;
            proof {
                assert((index ^ update_order_mask) & 0x3fffusize < 0x4000usize) by (bit_vector);
            }

            self.update_cell(cell_index);
            index += 1;
        }

        if self.center.should_update_neighbor() {
            self.bottom.set_should_update(true);
            self.top.set_should_update(true);
            self.left.set_should_update(true);
            self.right.set_should_update(true);
            self.left_top.set_should_update(true);
            self.right_top.set_should_update(true);
            self.left_bottom.set_should_update(true);
            self.right_bottom.set_should_update(true);
        }
    }
}

} // verus!

verus! {

/// What became of a particle whose integration step ended at a target
/// cell address.
#[derive(Debug, Clone, Copy, PartialEq, Eq, Structural)]
pub enum ParticleOutcome {
    /// The particle stays in the centre chunk, at its target position.
    Stayed,
    /// The particle hit a material it cannot pass through and became a
    /// grid cell one step before the obstacle.
    Converted,
    /// The particle left the centre chunk; it now belongs to the chunk on
    /// this side of the window.
    Crossed(Side),
}

/// The axis-wise distance between two window addresses.
pub open spec fn spec_walk_distance(a: AbsoluteCellPos, b: AbsoluteCellPos) -> int {
    abs_diff_int(a.spec_x(), b.spec_x()) + abs_diff_int(a.spec_y(), b.spec_y())
}

pub open spec fn abs_diff_int(a: int, b: int) -> int {
    if a < b {
        b - a
    } else {
        a - b
    }
}

/// The window address standing for a coordinate pair, split into a side
/// and an in-chunk index exactly as `AbsoluteCellPos::from_cords` splits
/// it.
pub open spec fn spec_from_cords(x: int, y: int) -> AbsoluteCellPos {
    let s = CHUNK_SIZE as int;
    let nx = if x < 0 {
        x + s
    } else if x < s {
        x
    } else {
        x - s
    };
    let ny = if y < 0 {
        y + s
    } else if y < s {
        y
    } else {
        y - s
    };
    let h = if x < 0 {
        HorizontalSide::Left
    } else if x < s {
        HorizontalSide::Center
    } else {
        HorizontalSide::Right
    };
    let v = if y < 0 {
        VerticalSide::Bottom
    } else if y < s {
        VerticalSide::Center
    } else {
        VerticalSide::Top
    };
    AbsoluteCellPos { index: (nx + ny * s) as usize, side: Side { horizontal: h, vertical: v } }
}

/// Splitting in-range coordinates is faithful: the address stands for
/// exactly those coordinates.
proof fn lemma_spec_from_cords(x: int, y: int)
    requires
        -(CHUNK_SIZE as int) < x < 2 * CHUNK_SIZE,
        -(CHUNK_SIZE as int) < y < 2 * CHUNK_SIZE,
    ensures
        spec_from_cords(x, y).wf(),
        spec_from_cords(x, y).spec_x() == x,
        spec_from_cords(x, y).spec_y() == y,
{
    let s = CHUNK_SIZE as int;
    let nx = if x < 0 {
        x + s
    } else if x < s {
        x
    } else {
        x - s
    };
    let ny = if y < 0 {
        y + s
    } else if y < s {
        y
    } else {
        y - s
    };
    lemma_norm_index(nx, ny);
}

/// One step of the particle walk: the address one cell closer to the
/// target on each axis.
pub open spec fn spec_step_towards(prev: AbsoluteCellPos, target: AbsoluteCellPos) -> AbsoluteCellPos {
    spec_from_cords(
        spec_move_towards(prev.spec_x(), target.spec_x()),
        spec_move_towards(prev.spec_y(), target.spec_y()),
    )
}

/// Whether a walking particle cannot pass the cell at this address.
pub open spec fn particle_blocked(ctx: ChunkUpdateContext, pos: AbsoluteCellPos) -> bool {
    !ctx.cells_template.cells@[ctx.cell_at(pos).id as int].replaceable_by_particles
}

/// Both endpoints of a walk are addressable and stay clear of the
/// window's closed lower edge, so every step does too.
pub open spec fn walk_wf(prev: AbsoluteCellPos, target: AbsoluteCellPos) -> bool {
    &&& prev.wf()
    &&& target.wf()
    &&& prev.spec_x() > -(CHUNK_SIZE as int)
    &&& prev.spec_y() > -(CHUNK_SIZE as int)
    &&& target.spec_x() > -(CHUNK_SIZE as int)
    &&& target.spec_y() > -(CHUNK_SIZE as int)
}

/// Where the cell-by-cell walk from `prev` toward `target` ends:
/// `None` when it reaches the target without hitting an impassable
/// material, `Some(p)` when the step after `p` is blocked — `p` is the
/// last passable address, where a colliding particle turns into a cell.
pub open spec fn spec_walk_outcome(
    ctx: ChunkUpdateContext,
    prev: AbsoluteCellPos,
    target: AbsoluteCellPos,
) -> Option<AbsoluteCellPos>
    decreases spec_walk_distance(prev, target),
        when walk_wf(prev, target)
    via spec_walk_outcome_decreases
{
    if prev.spec_x() == target.spec_x() && prev.spec_y() == target.spec_y() {
        None
    } else {
        let next = spec_step_towards(prev, target);
        if particle_blocked(ctx, next) {
            Some(prev)
        } else {
            spec_walk_outcome(ctx, next, target)
        }
    }
}

#[via_fn]
proof fn spec_walk_outcome_decreases(
    ctx: ChunkUpdateContext,
    prev: AbsoluteCellPos,
    target: AbsoluteCellPos,
) {
    if walk_wf(prev, target) && !(prev.spec_x() == target.spec_x() && prev.spec_y()
        == target.spec_y()) {
        lemma_index_coords_in_chunk(prev.index as int);
        lemma_index_coords_in_chunk(target.index as int);
        lemma_spec_from_cords(
            spec_move_towards(prev.spec_x(), target.spec_x()),
            spec_move_towards(prev.spec_y(), target.spec_y()),
        );
    }
}

impl<'a> ChunkUpdateContext<'a> {
    /// Walk a particle cell by cell from its old position in the centre
    /// chunk toward its integrated target position, and decide its fate:
    /// where the walk reaches the target the particle stays (or crosses
    /// into the neighbouring chunk that holds the target), and nothing is
    /// written; where the walk hits an impassable material, the particle
    /// becomes a freshly initialized cell of its source material, stamped
    /// with the current tick, at the last passable address of the walk —
    /// and nothing else changes.
    pub fn advance_particle(
        &mut self,
        start_index: usize,
        target: AbsoluteCellPos,
        particle_cell_id: CellId,
    ) -> (r: ParticleOutcome)
        requires
            old(self).wf(),
            start_index < CHUNK_AREA,
            target.wf(),
            target.spec_x() > -(CHUNK_SIZE as int),
            target.spec_y() > -(CHUNK_SIZE as int),
            particle_cell_id < old(self).ncells(),
        ensures
            final(self).wf(),
            rule_step(*old(self), *final(self)),
            ({
                let walk = spec_walk_outcome(*old(self), central_pos(start_index), target);
                &&& (r matches ParticleOutcome::Stayed ==> *final(self) == *old(self)
                    && walk is None && target.side.is_center())
                &&& (r matches ParticleOutcome::Crossed(side) ==> *final(self) == *old(self)
                    && walk is None && side == target.side && !side.is_center())
                &&& (walk is Some ==> r matches ParticleOutcome::Converted)
                &&& (r matches ParticleOutcome::Converted ==> (walk matches Some(p) && {
                    let stamped = Cell {
                        last_update: old(self).current_tick,
                        ..old(self).cells_template.cells@[particle_cell_id as int].spec_init()
                    };
                    &&& final(self).chunk_at(p.side).spec_data() == old(self).chunk_at(
                        p.side,
                    ).spec_data().update(p.index as int, stamped)
                    &&& (forall|s: Side| s != p.side ==> #[trigger] final(self).chunk_at(s)
                        == old(self).chunk_at(s))
                    &&& final(self).chunk_at(p.side).spec_rng() == old(self).chunk_at(
                        p.side,
                    ).spec_rng()
                }))
            }),
    {
        let ghost walk = spec_walk_outcome(*old(self), central_pos(start_index), target);
        let mut prev_pos = AbsoluteCellPos::central(start_index);
        proof {
            lemma_index_coords_in_chunk(start_index as int);
            assert(prev_pos == central_pos(start_index));
        }

        if prev_pos == target {
            return ParticleOutcome::Stayed;
        }

        while prev_pos != target
            invariant
                *self == *old(self),
                self.wf(),
                prev_pos.wf(),
                target.wf(),
                prev_pos.spec_x() > -(CHUNK_SIZE as int),
                prev_pos.spec_y() > -(CHUNK_SIZE as int),
                target.spec_x() > -(CHUNK_SIZE as int),
                target.spec_y() > -(CHUNK_SIZE as int),
                particle_cell_id < self.ncells(),
                spec_walk_outcome(*old(self), prev_pos, target) == walk,
                spec_walk_outcome(*old(self), central_pos(start_index), target) == walk,
            decreases spec_walk_distance(prev_pos, target),
        {
            let ghost dist_before = spec_walk_distance(prev_pos, target);
            let next_pos = prev_pos.move_towards(target);
            proof {
                if prev_pos.spec_x() == target.spec_x() && prev_pos.spec_y()
                    == target.spec_y() {
                    lemma_window_address_unique(prev_pos, target);
                }
                lemma_spec_from_cords(
                    spec_move_towards(prev_pos.spec_x(), target.spec_x()),
                    spec_move_towards(prev_pos.spec_y(), target.spec_y()),
                );
                lemma_window_address_unique(next_pos, spec_step_towards(prev_pos, target));
                assert(next_pos == spec_step_towards(prev_pos, target));
                assert(spec_walk_distance(next_pos, target) < dist_before);
            }

            let cell = self.get_cell(next_pos);
            let template = self.cells_template;
            let cell_meta = template.get_cell_meta(cell.id);

            let is_collided = !cell_meta.replaceable_by_particles;
            proof {
                assert(is_collided == particle_blocked(*old(self), next_pos));
            }

            if is_collided {
                proof {
                    assert(walk == Some(prev_pos));
                }
                let ghost before = *self;
                let particle_cell = template.get_cell_meta(particle_cell_id);
                self.set_cell(prev_pos, particle_cell.init());
                proof {
                    let stamped = Cell {
                        last_update: old(self).current_tick,
                        ..old(self).cells_template.cells@[particle_cell_id as int].spec_init()
                    };
                    assert(before == *old(self));
                    assert(self.chunk_at(prev_pos.side).spec_data() == old(self).chunk_at(
                        prev_pos.side,
                    ).spec_data().update(prev_pos.index as int, stamped));
                    assert(forall|s: Side| s != prev_pos.side ==> #[trigger] self.chunk_at(s)
                        == old(self).chunk_at(s));
                    assert(self.chunk_at(prev_pos.side).spec_rng() == old(self).chunk_at(
                        prev_pos.side,
                    ).spec_rng());
                }
                return ParticleOutcome::Converted;
            }

            prev_pos = next_pos;
        }

        proof {
            assert(walk is None);
        }
        if !target.is_in_central() {
            ParticleOutcome::Crossed(target.side)
        } else {
            ParticleOutcome::Stayed
        }
    }
}

/// The coordinates that a central cell index stands for lie inside the
/// centre chunk.
proof fn lemma_index_coords_in_chunk(index: int)
    requires
        0 <= index < CHUNK_AREA,
    ensures
        0 <= index % (CHUNK_SIZE as int) < CHUNK_SIZE,
        0 <= index / (CHUNK_SIZE as int) < CHUNK_SIZE,
{
    lemma_index_round_trip(index);
}

/// Two well-formed window addresses with the same coordinates are the
/// same address.
proof fn lemma_window_address_unique(a: AbsoluteCellPos, b: AbsoluteCellPos)
    requires
        a.wf(),
        b.wf(),
        a.spec_x() == b.spec_x(),
        a.spec_y() == b.spec_y(),
    ensures
        a == b,
{
    lemma_index_coords_in_chunk(a.index as int);
    lemma_index_coords_in_chunk(b.index as int);
    let s = CHUNK_SIZE as int;
    assert(a.side.horizontal == b.side.horizontal);
    assert(a.side.vertical == b.side.vertical);
    assert((a.index as int) % s == (b.index as int) % s);
    assert((a.index as int) / s == (b.index as int) / s);
    vstd::arithmetic::div_mod::lemma_fundamental_div_mod(a.index as int, s);
    vstd::arithmetic::div_mod::lemma_fundamental_div_mod(b.index as int, s);
}

} // verus!
