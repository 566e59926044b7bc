use vstd::prelude::*;
use crate::cell::{Cell, CellId, CELL_REGISTERS_COUNT};
use crate::update::RelativePos;

verus! {

/// The immutable material catalog: one entry per material id, in id order.
#[derive(Debug)]
pub struct CellsTemplate {
    pub cells: Vec<CellMeta>,
}

impl CellsTemplate {
    /// The catalog is closed and consistent: every entry sits at the index
    /// equal to its id, and every rule tree only names materials and
    /// registers that exist.
    pub open spec fn wf(self) -> bool {
        &&& 0 < self.cells@.len() <= u32::MAX
        &&& forall|i: int|
            0 <= i < self.cells@.len() ==> (#[trigger] self.cells@[i]).wf(self.cells@.len() as int)
        &&& forall|i: int|
            0 <= i < self.cells@.len() ==> (#[trigger] self.cells@[i]).id == i
    }

    pub fn get_cell_meta(&self, id: CellId) -> (r: &CellMeta)
        requires
            id < self.cells@.len(),
        ensures
            r == &self.cells@[id as int],
    {
        &self.cells[id as usize]
    }

    /// The first catalog entry carrying the given label, if any.
    pub fn get_cell_meta_by_label(&self, label: &str) -> (r: Option<&CellMeta>)
        ensures
            match r {
                Some(m) => exists|i: int|
                    {
                        &&& 0 <= i < self.cells@.len()
                        &&& m == &self.cells@[i]
                        &&& self.cells@[i].label@ == label@
                        &&& forall|j: int| 0 <= j < i ==> (#[trigger] self.cells@[j]).label@ != label@
                    },
                None => forall|j: int|
                    0 <= j < self.cells@.len() ==> (#[trigger] self.cells@[j]).label@ != label@,
            },
    {
        let needle: String = label.to_owned();
        let mut i: usize = 0;
        while i < self.cells.len()
            invariant
                i <= self.cells@.len(),
                needle@ == label@,
                forall|j: int| 0 <= j < i ==> (#[trigger] self.cells@[j]).label@ != label@,
            decreases self.cells@.len() - i,
        {
            if self.cells[i].label == needle {
                return Some(&self.cells[i]);
            }
            i += 1;
        }
        None
    }
}

/// One material: its id, display rule, behaviour rule tree, and the
/// initial register bank of a freshly placed cell.
#[derive(Debug)]
pub struct CellMeta {
    pub id: CellId,
    pub color: CellColor,
    pub label: String,
    pub rule: CellRule,
    /// If true, the age register is meant to advance every tick.
    pub count_age: bool,
    /// Whether a moving particle may pass through (and land in) this
    /// material's space.
    pub replaceable_by_particles: bool,
    pub initial_register_values: [u32; CELL_REGISTERS_COUNT],
}

impl CellMeta {
    pub open spec fn wf(self, ncells: int) -> bool {
        &&& self.rule.wf(ncells)
        &&& self.color.wf()
    }

    /// The cell that a freshly placed unit of this material starts as.
    pub open spec fn spec_init(self) -> Cell {
        Cell { id: self.id, last_update: 0, registers: self.initial_register_values }
    }

    pub fn init(&self) -> (r: Cell)
        ensures
            r == self.spec_init(),
    {
        Cell { id: self.id, last_update: 0, registers: self.initial_register_values }
    }
}

/// How a material is displayed: one fixed colour, or a base colour plus a
/// per-cell brightness jitter drawn once and cached, bounded by the second
/// component.
#[derive(Debug, Clone, Copy, PartialEq, Eq, PartialOrd, Ord)]
pub enum CellColor {
    Plain([u8; 4]),
    RandomizeBrightness([u8; 4], u8),
}

impl CellColor {
    /// The brightness bound is used as a modulus, so it must not be zero.
    pub open spec fn wf(self) -> bool {
        match self {
            CellColor::Plain(_) => true,
            CellColor::RandomizeBrightness(_, max_value) => max_value > 0,
        }
    }
}

/// A material's behaviour: a tree of conditions, combinators and primitive
/// actions, evaluated each tick for each cell of that material.
#[derive(Debug)]
pub enum CellRule {
    /// Do nothing and report success.
    Idle,
    /// If `condition` holds run `action`, otherwise `else_action` if present.
    If { condition: RuleCondition, action: Box<CellRule>, else_action: Option<Box<CellRule>> },
    /// Swap the evaluated cell with the cell at `pos` if that cell's
    /// material is in the list.
    SwapWithIds { pos: RelativePos, match_ids: Vec<CellId> },
    /// Run the child for its side effects but always report failure, so
    /// later siblings in a first-success list still get their turn.
    ApplyAndContinue(Box<CellRule>),
    /// Try children in order; stop at the first success.
    FirstSuccess(Vec<CellRule>),
    /// Try the two children in random order; stop at the first success.
    RandomPair(Box<(CellRule, CellRule)>),
    /// Try the child plain and mirrored along X, in random order.
    SymmetryX(Box<CellRule>),
    /// Try the child plain and mirrored along Y, in random order.
    SymmetryY(Box<CellRule>),
    /// Try the child plain and with the axes swapped, in random order.
    SymmetryDiagonal(Box<CellRule>),
    /// Run the child mirrored along X when the condition holds; fail
    /// otherwise.
    MirrorXIf { condition: RuleCondition, rule: Box<CellRule> },
    /// Run the child mirrored along Y when the condition holds; fail
    /// otherwise.
    MirrorYIf { condition: RuleCondition, rule: Box<CellRule> },
    /// Run the child with the axes swapped when the condition holds; fail
    /// otherwise.
    MirrorDiagonalIf { condition: RuleCondition, rule: Box<CellRule> },
    /// Run every child regardless of the individual outcomes.
    TryAll(Vec<CellRule>),
    /// Replace the cell at `pos` with a freshly initialized cell.
    InitCell { pos: RelativePos, cell_id: CellId },
    /// Swap the evaluated cell with the cell at `pos` unconditionally.
    SwapWith { pos: RelativePos },
    IncrementRegister { register: u8, pos: RelativePos },
    DecrementRegister { register: u8, pos: RelativePos },
    SetRegister { register: u8, value: u32, pos: RelativePos },
    /// Set a register to a fresh random value masked by `mask`.
    SerRegisterRandomMasked { register: u8, mask: u32, pos: RelativePos },
    /// Copy a register of the cell at `source_cell` into a register of the
    /// cell at `target_cell`.
    MoveRegister {
        source_register: u8,
        source_cell: RelativePos,
        target_register: u8,
        target_cell: RelativePos,
    },
}

impl CellRule {
    /// Every offset can be transformed, every register index is in range,
    /// and every named material id exists in a catalog of `ncells` entries.
    pub open spec fn wf(self, ncells: int) -> bool
        decreases self,
    {
        match self {
            CellRule::Idle => true,
            CellRule::If { condition, action, else_action } => {
                &&& condition.wf()
                &&& action.wf(ncells)
                &&& match else_action {
                    Some(e) => e.wf(ncells),
                    None => true,
                }
            },
            CellRule::SwapWithIds { pos, match_ids } => pos.wf(),
            CellRule::ApplyAndContinue(rule) => rule.wf(ncells),
            CellRule::FirstSuccess(rules) => forall|i: int|
                0 <= i < rules@.len() ==> (#[trigger] rules@[i]).wf(ncells),
            CellRule::RandomPair(pair) => pair.0.wf(ncells) && pair.1.wf(ncells),
            CellRule::SymmetryX(rule) => rule.wf(ncells),
            CellRule::SymmetryY(rule) => rule.wf(ncells),
            CellRule::SymmetryDiagonal(rule) => rule.wf(ncells),
            CellRule::MirrorXIf { condition, rule } => condition.wf() && rule.wf(ncells),
            CellRule::MirrorYIf { condition, rule } => condition.wf() && rule.wf(ncells),
            CellRule::MirrorDiagonalIf { condition, rule } => condition.wf() && rule.wf(ncells),
            CellRule::TryAll(rules) => forall|i: int|
                0 <= i < rules@.len() ==> (#[trigger] rules@[i]).wf(ncells),
            CellRule::InitCell { pos, cell_id } => pos.wf() && cell_id < ncells,
            CellRule::SwapWith { pos } => pos.wf(),
            CellRule::IncrementRegister { register, pos } => pos.wf() && register
                < CELL_REGISTERS_COUNT,
            CellRule::DecrementRegister { register, pos } => pos.wf() && register
                < CELL_REGISTERS_COUNT,
            CellRule::SetRegister { register, value, pos } => pos.wf() && register
                < CELL_REGISTERS_COUNT,
            CellRule::SerRegisterRandomMasked { register, mask, pos } => pos.wf() && register
                < CELL_REGISTERS_COUNT,
            CellRule::MoveRegister { source_register, source_cell, target_register, target_cell } => {
                &&& source_cell.wf()
                &&& target_cell.wf()
                &&& source_register < CELL_REGISTERS_COUNT
                &&& target_register < CELL_REGISTERS_COUNT
            },
        }
    }

    pub fn random_pair(first: CellRule, second: CellRule) -> (r: CellRule)
        ensures
            r matches CellRule::RandomPair(pair) && pair.0 == first && pair.1 == second,
    {
        CellRule::RandomPair(Box::new((first, second)))
    }

    pub fn apply_and_continue(rule: CellRule) -> (r: CellRule)
        ensures
            r matches CellRule::ApplyAndContinue(b) && *b == rule,
    {
        CellRule::ApplyAndContinue(Box::new(rule))
    }

    pub fn symmetry_x(rule: CellRule) -> (r: CellRule)
        ensures
            r matches CellRule::SymmetryX(b) && *b == rule,
    {
        CellRule::SymmetryX(Box::new(rule))
    }

    pub fn symmetry_y(rule: CellRule) -> (r: CellRule)
        ensures
            r matches CellRule::SymmetryY(b) && *b == rule,
    {
        CellRule::SymmetryY(Box::new(rule))
    }

    pub fn symmetry_diagonal(rule: CellRule) -> (r: CellRule)
        ensures
            r matches CellRule::SymmetryDiagonal(b) && *b == rule,
    {
        CellRule::SymmetryDiagonal(Box::new(rule))
    }

    pub fn if_then(condition: RuleCondition, action: CellRule) -> (r: CellRule)
        ensures
            r matches CellRule::If { condition: c, action: a, else_action: e } && c == condition
                && *a == action && e is None,
    {
        CellRule::If { condition, action: Box::new(action), else_action: None }
    }

    pub fn if_else(condition: RuleCondition, action: CellRule, else_action: CellRule) -> (r:
        CellRule)
        ensures
            r matches CellRule::If { condition: c, action: a, else_action: e } && c == condition
                && *a == action && (e matches Some(eb) && *eb == else_action),
    {
        CellRule::If {
            condition,
            action: Box::new(action),
            else_action: Some(Box::new(else_action)),
        }
    }

    pub fn mirror_x_if(condition: RuleCondition, rule: CellRule) -> (r: CellRule)
        ensures
            r matches CellRule::MirrorXIf { condition: c, rule: b } && c == condition && *b == rule,
    {
        CellRule::MirrorXIf { condition, rule: Box::new(rule) }
    }

    pub fn mirror_y_if(condition: RuleCondition, rule: CellRule) -> (r: CellRule)
        ensures
            r matches CellRule::MirrorYIf { condition: c, rule: b } && c == condition && *b == rule,
    {
        CellRule::MirrorYIf { condition, rule: Box::new(rule) }
    }

    pub fn mirror_diagonal_if(condition: RuleCondition, rule: CellRule) -> (r: CellRule)
        ensures
            r matches CellRule::MirrorDiagonalIf { condition: c, rule: b } && c == condition && *b
                == rule,
    {
        CellRule::MirrorDiagonalIf { condition, rule: Box::new(rule) }
    }

    pub fn set_reg_value(register: u8, value: u32) -> (r: CellRule)
        ensures
            r matches CellRule::SetRegister { register: rg, value: v, pos: p } && rg == register
                && v == value && p.x == 0 && p.y == 0,
    {
        CellRule::SetRegister { register, value, pos: RelativePos::self_pos() }
    }
}

/// A condition over the 3-by-3 chunk neighbourhood of the evaluated cell.
#[derive(Debug)]
pub enum RuleCondition {
    And(Vec<RuleCondition>),
    Or(Vec<RuleCondition>),
    Not(Box<RuleCondition>),
    /// The cell at `pos` has exactly this material.
    RelativeCell { pos: RelativePos, cell_id: CellId },
    /// The cell at `pos` does not have this material.
    RelativeCellNot { pos: RelativePos, cell_id: CellId },
    /// The cell at `pos` has one of the listed materials.
    RelativeCellIn { pos: RelativePos, cell_id_list: Vec<CellId> },
    /// The cell at `pos` has none of the listed materials.
    RelativeCellNotIn { pos: RelativePos, cell_id_list: Vec<CellId> },
    /// Compare two operands, each a literal or a register read.
    BinaryOp { op: ConditionBinaryOp, a: ConditionArg, b: ConditionArg },
    Always,
}

impl RuleCondition {
    pub open spec fn wf(self) -> bool
        decreases self,
    {
        match self {
            RuleCondition::And(conditions) => forall|i: int|
                0 <= i < conditions@.len() ==> (#[trigger] conditions@[i]).wf(),
            RuleCondition::Or(conditions) => forall|i: int|
                0 <= i < conditions@.len() ==> (#[trigger] conditions@[i]).wf(),
            RuleCondition::Not(condition) => condition.wf(),
            RuleCondition::RelativeCell { pos, cell_id } => pos.wf(),
            RuleCondition::RelativeCellNot { pos, cell_id } => pos.wf(),
            RuleCondition::RelativeCellIn { pos, cell_id_list } => pos.wf(),
            RuleCondition::RelativeCellNotIn { pos, cell_id_list } => pos.wf(),
            RuleCondition::BinaryOp { op, a, b } => a.wf() && b.wf(),
            RuleCondition::Always => true,
        }
    }

    pub fn reg_non_zero(register: u8) -> (r: RuleCondition)
        ensures
            r == (RuleCondition::BinaryOp {
                op: ConditionBinaryOp::NotEq,
                a: ConditionArg::Register { pos: RelativePos { x: 0, y: 0 }, register },
                b: ConditionArg::Value(0),
            }),
    {
        RuleCondition::BinaryOp {
            op: ConditionBinaryOp::NotEq,
            a: ConditionArg::Register { pos: RelativePos { x: 0, y: 0 }, register },
            b: ConditionArg::Value(0),
        }
    }

    pub fn reg_neg(register: u8) -> (r: RuleCondition)
        ensures
            r == (RuleCondition::BinaryOp {
                op: ConditionBinaryOp::Less,
                a: ConditionArg::Register { pos: RelativePos { x: 0, y: 0 }, register },
                b: ConditionArg::Value(0),
            }),
    {
        RuleCondition::BinaryOp {
            op: ConditionBinaryOp::Less,
            a: ConditionArg::Register { pos: RelativePos { x: 0, y: 0 }, register },
            b: ConditionArg::Value(0),
        }
    }

    pub fn reg_pos(register: u8) -> (r: RuleCondition)
        ensures
            r == (RuleCondition::BinaryOp {
                op: ConditionBinaryOp::GreaterEq,
                a: ConditionArg::Register { pos: RelativePos { x: 0, y: 0 }, register },
                b: ConditionArg::Value(0),
            }),
    {
        RuleCondition::BinaryOp {
            op: ConditionBinaryOp::GreaterEq,
            a: ConditionArg::Register { pos: RelativePos { x: 0, y: 0 }, register },
            b: ConditionArg::Value(0),
        }
    }

    pub fn reg_not_eq(register: u8, value: u32) -> (r: RuleCondition)
        ensures
            r == (RuleCondition::BinaryOp {
                op: ConditionBinaryOp::NotEq,
                a: ConditionArg::Register { pos: RelativePos { x: 0, y: 0 }, register },
                b: ConditionArg::Value(value),
            }),
    {
        RuleCondition::BinaryOp {
            op: ConditionBinaryOp::NotEq,
            a: ConditionArg::Register { pos: RelativePos { x: 0, y: 0 }, register },
            b: ConditionArg::Value(value),
        }
    }

    pub fn reg_eq(register: u8, value: u32) -> (r: RuleCondition)
        ensures
            r == (RuleCondition::BinaryOp {
                op: ConditionBinaryOp::Eq,
                a: ConditionArg::Register { pos: RelativePos { x: 0, y: 0 }, register },
                b: ConditionArg::Value(value),
            }),
    {
        RuleCondition::BinaryOp {
            op: ConditionBinaryOp::Eq,
            a: ConditionArg::Register { pos: RelativePos { x: 0, y: 0 }, register },
            b: ConditionArg::Value(value),
        }
    }
}

/// One operand of a binary comparison: a literal, or a register read at a
/// transformed offset.
#[derive(Debug)]
pub enum ConditionArg {
    Register { pos: RelativePos, register: u8 },
    Value(u32),
}

impl ConditionArg {
    pub open spec fn wf(self) -> bool {
        match self {
            ConditionArg::Register { pos, register } => pos.wf() && register
                < CELL_REGISTERS_COUNT,
            ConditionArg::Value(_) => true,
        }
    }

    pub fn register(register: u8) -> (r: ConditionArg)
        ensures
            r == (ConditionArg::Register { pos: RelativePos { x: 0, y: 0 }, register }),
    {
        ConditionArg::Register { pos: RelativePos::self_pos(), register }
    }

    pub fn register_at(pos: RelativePos, register: u8) -> (r: ConditionArg)
        ensures
            r == (ConditionArg::Register { pos, register }),
    {
        ConditionArg::Register { pos, register }
    }

    pub fn value(value: u32) -> (r: ConditionArg)
        ensures
            r == ConditionArg::Value(value),
    {
        ConditionArg::Value(value)
    }
}

/// Relational operator of a binary condition.
#[derive(Debug, Clone, Copy, PartialEq, Eq, Structural, PartialOrd, Ord)]
pub enum ConditionBinaryOp {
    Eq,
    NotEq,
    Less,
    LessEq,
    Greater,
    GreaterEq,
}

} // verus!

use crate::cell::{CELL_REGISTER_SYSTEM, CELL_REGISTER_SYSTEM_FLAG_IS_BRIGHTNESS_SET};
use crate::chunk::{Chunk, CHUNK_AREA};

verus! {

/// The brightness jitter cached in a cell's system register: its second
/// byte.
pub open spec fn spec_brightness(reg: u32) -> u32 {
    (reg >> 8u32) & 0xff
}

/// A colour channel brightened by a jitter, saturating at pure white.
pub open spec fn spec_brightened(channel: u8, brightness: u32) -> u8 {
    if channel + brightness > 255 {
        255u8
    } else {
        (channel + brightness) as u8
    }
}

impl CellColor {
    /// The display colour of one cell. A plain colour is returned as is;
    /// a randomized colour draws the cell's brightness jitter from its
    /// private random stream once, caches it in the system register, and
    /// brightens the base colour by the cached jitter.
    pub fn calculate(&self, chunk: &mut Chunk, cell_index: usize) -> (r: [u8; 4])
        requires
            old(chunk).wf(),
            cell_index < CHUNK_AREA,
            self.wf(),
        ensures
            final(chunk).wf(),
            self matches CellColor::Plain(color) ==> r == color && *final(chunk) == *old(chunk),
            self matches CellColor::RandomizeBrightness(base, max) ==> {
                let pre = old(chunk).spec_data()[cell_index as int];
                let post = final(chunk).spec_data()[cell_index as int];
                let b = spec_brightness(post.registers[CELL_REGISTER_SYSTEM as int]);
                &&& forall|i: int|
                    0 <= i < CHUNK_AREA && i != cell_index ==> final(chunk).spec_data()[i] == old(
                        chunk,
                    ).spec_data()[i]
                &&& forall|i: int|
                    0 <= i < CHUNK_AREA && i != cell_index ==> final(chunk).spec_rng()[i] == old(
                        chunk,
                    ).spec_rng()[i]
                &&& post.id == pre.id
                &&& post.last_update == pre.last_update
                &&& forall|j: int|
                    0 <= j < crate::cell::CELL_REGISTERS_COUNT && j != CELL_REGISTER_SYSTEM
                        ==> post.registers[j] == pre.registers[j]
                &&& post.registers[CELL_REGISTER_SYSTEM as int] & 1 == 1
                &&& (pre.registers[CELL_REGISTER_SYSTEM as int] & (
                CELL_REGISTER_SYSTEM_FLAG_IS_BRIGHTNESS_SET as u32) == 0 ==> (b as int) < (
                max as int))
                &&& r == ([
                    spec_brightened(base[0], b),
                    spec_brightened(base[1], b),
                    spec_brightened(base[2], b),
                    base[3],
                ])
                &&& (old(chunk).spec_should_update() ==> final(chunk).spec_should_update())
                &&& (old(chunk).spec_should_redraw() ==> final(chunk).spec_should_redraw())
            },
    {
        match self {
            CellColor::Plain(color) => *color,
            CellColor::RandomizeBrightness(base_color, max_value) => {
                let mut cell = chunk.get_by_index(cell_index);

                let system_reg = cell.registers[CELL_REGISTER_SYSTEM];
                let mut brightness: u32 = (system_reg >> 8) & 0xff;
                let brightness_not_set = system_reg
                    & (CELL_REGISTER_SYSTEM_FLAG_IS_BRIGHTNESS_SET as u32) == 0;

                if brightness_not_set {
                    let random_value = chunk.get_random_value(cell_index);
                    let drawn = random_value % (*max_value as u64);
                    brightness = drawn as u32;

                    let new_reg = (system_reg & 0xffff_00ff) | (brightness << 8) | 1;
                    proof {
                        let b = brightness;
                        let reg = system_reg;
                        assert(((reg & 0xffff_00ff) | (b << 8u32) | 1u32) >> 8u32 & 0xff == b)
                            by (bit_vector)
                            requires b < 256u32,
                        ;
                        assert(((reg & 0xffff_00ff) | (b << 8u32) | 1u32) & 1 == 1)
                            by (bit_vector);
                    }

                    cell.registers[CELL_REGISTER_SYSTEM] = new_reg;
                    chunk.set_by_index(cell_index, cell);
                } else {
                    proof {
                        let reg = system_reg;
                        assert(reg & 1u32 == 1 && (reg >> 8u32) & 0xff < 256) by (bit_vector)
                            requires reg & 1u32 != 0,
                        ;
                        assert(reg
                            & (CELL_REGISTER_SYSTEM_FLAG_IS_BRIGHTNESS_SET as u32) == reg & 1u32);
                    }
                }

                proof {
                    let reg = system_reg;
                    assert((reg >> 8u32) & 0xff < 256) by (bit_vector);
                }
                let brightness_byte = brightness as u8;

                let mut color = *base_color;
                color[0] = color[0].saturating_add(brightness_byte);
                color[1] = color[1].saturating_add(brightness_byte);
                color[2] = color[2].saturating_add(brightness_byte);

                color
            },
        }
    }
}

} // verus!
