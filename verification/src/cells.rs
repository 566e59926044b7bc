use vstd::prelude::*;
use crate::cell::CellId;
use crate::cell::CELL_REGISTERS_COUNT;
use crate::config::{
    CellColor, CellMeta, CellRule, CellsTemplate, ConditionArg, ConditionBinaryOp, RuleCondition,
};
use crate::update::RelativePos;

verus! {

/// Accumulates the material catalog: labels are handed stable sequential
/// ids before the materials themselves are filled in, so rule trees may
/// refer to materials that are added later.
#[derive(Debug)]
pub struct CellTemplateBuilder {
    pub next_id: CellId,
    pub id_by_label: Vec<(String, CellId)>,
    pub cells: Vec<Option<CellMeta>>,
}

impl CellTemplateBuilder {
    /// Ids are handed out sequentially: one slot and one label entry per
    /// id.
    pub open spec fn inv(self) -> bool {
        &&& self.cells@.len() == self.next_id
        &&& self.id_by_label@.len() == self.next_id
        &&& forall|j: int|
            0 <= j < self.id_by_label@.len() ==> (#[trigger] self.id_by_label@[j]).1
                < self.next_id
    }

    pub fn new() -> (r: CellTemplateBuilder)
        ensures
            r.inv(),
            r.next_id == 0,
    {
        CellTemplateBuilder { next_id: 0, id_by_label: Vec::new(), cells: Vec::new() }
    }

    /// The id that the given label has, or a fresh id if the label is
    /// new. The same label always yields the same id.
    pub fn ensure_id_by_label(&mut self, label: &str) -> (r: CellId)
        requires
            old(self).inv(),
            old(self).next_id < u32::MAX,
        ensures
            final(self).inv(),
            final(self).next_id <= old(self).next_id + 1,
            r < final(self).next_id,
            (exists|j: int|
                0 <= j < old(self).id_by_label@.len() && (#[trigger] old(
                    self,
                ).id_by_label@[j]).0@ == label@) ==> *final(self) == *old(self) && (exists|j: int|
                {
                    &&& 0 <= j < old(self).id_by_label@.len()
                    &&& (#[trigger] old(self).id_by_label@[j]).0@ == label@
                    &&& r == old(self).id_by_label@[j].1
                    &&& forall|j2: int|
                        0 <= j2 < j ==> (#[trigger] old(self).id_by_label@[j2]).0@ != label@
                }),
            !(exists|j: int|
                0 <= j < old(self).id_by_label@.len() && (#[trigger] old(
                    self,
                ).id_by_label@[j]).0@ == label@) ==> {
                &&& final(self).next_id == old(self).next_id + 1
                &&& r == old(self).next_id
                &&& final(self).cells@ == old(self).cells@.push(None)
                &&& forall|j: int|
                    0 <= j < old(self).cells@.len() ==> final(self).cells@[j] == old(
                        self,
                    ).cells@[j]
                &&& final(self).id_by_label@.len() == old(self).id_by_label@.len() + 1
                &&& final(self).id_by_label@[old(self).id_by_label@.len() as int].0@ == label@
                &&& final(self).id_by_label@[old(self).id_by_label@.len() as int].1 == r
                &&& forall|j: int|
                    0 <= j < old(self).id_by_label@.len() ==> final(self).id_by_label@[j] == old(
                        self,
                    ).id_by_label@[j]
            },
    {
        let needle: String = label.to_owned();
        let mut j: usize = 0;
        while j < self.id_by_label.len()
            invariant
                self.inv(),
                j <= self.id_by_label@.len(),
                needle@ == label@,
                forall|jj: int|
                    0 <= jj < j ==> (#[trigger] self.id_by_label@[jj]).0@ != label@,
            decreases self.id_by_label@.len() - j,
        {
            if self.id_by_label[j].0 == needle {
                return self.id_by_label[j].1;
            }
            j += 1;
        }

        let id = self.next_id;
        self.id_by_label.push((needle, id));
        self.cells.push(None);
        self.next_id = self.next_id + 1;
        id
    }

    /// Register a material under its label's id; the id stored in the
    /// entry is overwritten with that id.
    pub fn add_cell(&mut self, cell_meta: CellMeta) -> (r: CellId)
        requires
            old(self).inv(),
            old(self).next_id < u32::MAX,
        ensures
            final(self).inv(),
            final(self).next_id <= old(self).next_id + 1,
            r < final(self).next_id,
            final(self).cells@.len() <= old(self).cells@.len() + 1,
            final(self).cells@[r as int] matches Some(m) && m == (CellMeta {
                id: r,
                ..cell_meta
            }),
            forall|j: int|
                0 <= j < final(self).cells@.len() && j != r ==> j < old(self).cells@.len()
                    && final(self).cells@[j] == old(self).cells@[j],
            (exists|j: int|
                0 <= j < old(self).id_by_label@.len() && (#[trigger] old(
                    self,
                ).id_by_label@[j]).0@ == cell_meta.label@) ==> final(self).id_by_label@ == old(
                self,
            ).id_by_label@ && final(self).next_id == old(self).next_id && (exists|j: int|
                {
                    &&& 0 <= j < old(self).id_by_label@.len()
                    &&& (#[trigger] old(self).id_by_label@[j]).0@ == cell_meta.label@
                    &&& r == old(self).id_by_label@[j].1
                    &&& forall|j2: int|
                        0 <= j2 < j ==> (#[trigger] old(self).id_by_label@[j2]).0@
                            != cell_meta.label@
                }),
    {
        let id = self.ensure_id_by_label(cell_meta.label.as_str());
        let mut cell_meta = cell_meta;
        cell_meta.id = id;
        self.cells[id as usize] = Some(cell_meta);
        id
    }

    /// Assemble the catalog. Fails (with `None`) if some id was handed
    /// out for a label that never got a material.
    pub fn build(self) -> (r: Option<CellsTemplate>)
        requires
            self.inv(),
        ensures
            r matches Some(t) ==> {
                &&& t.cells@.len() == self.cells@.len()
                &&& forall|j: int|
                    0 <= j < t.cells@.len() ==> ((#[trigger] self.cells@[j]) matches Some(m)
                        && t.cells@[j] == m)
            },
            r is None ==> exists|j: int|
                0 <= j < self.cells@.len() && (#[trigger] self.cells@[j]) is None,
    {
        let ghost orig = self.cells@;
        let mut slots = self.cells;
        let mut cells: Vec<CellMeta> = Vec::new();

        while slots.len() > 0
            invariant
                orig == self.cells@,
                cells@.len() + slots@.len() == orig.len(),
                forall|j: int|
                    0 <= j < slots@.len() ==> slots@[j] == orig[cells@.len() + j],
                forall|j: int|
                    0 <= j < cells@.len() ==> ((#[trigger] orig[j]) matches Some(m) && cells@[j] == m),
            decreases slots@.len(),
        {
            let ghost filled = cells@.len() as int;
            let slot = slots.remove(0);
            match slot {
                Some(m) => {
                    cells.push(m);
                },
                None => {
                    proof {
                        assert(0 <= filled < orig.len());
                        assert(orig[filled] is None);
                        assert(exists|j: int|
                            0 <= j < orig.len() && (#[trigger] orig[j]) is None);
                    }
                    return None;
                },
            }
        }

        Some(CellsTemplate { cells })
    }
}

/// Whether a relative offset survives every geometric transformation.
fn check_rel(pos: &RelativePos) -> (r: bool)
    ensures
        r == pos.wf(),
{
    pos.x > i8::MIN && pos.y > i8::MIN
}

/// Whether a comparison operand is well formed.
fn check_arg(arg: &ConditionArg) -> (r: bool)
    ensures
        r == arg.wf(),
{
    match arg {
        ConditionArg::Register { pos, register } => check_rel(pos) && (*register as usize)
            < crate::cell::CELL_REGISTERS_COUNT,
        ConditionArg::Value(_) => true,
    }
}

/// Whether a condition tree is well formed.
fn check_condition_wf(condition: &RuleCondition) -> (r: bool)
    ensures
        r == condition.wf(),
    decreases *condition,
{
    match condition {
        RuleCondition::And(conditions) => {
            let mut i: usize = 0;
            while i < conditions.len()
                invariant
                    *condition == RuleCondition::And(*conditions),
                    i <= conditions@.len(),
                    forall|j: int| 0 <= j < i ==> (#[trigger] conditions@[j]).wf(),
                decreases conditions@.len() - i,
            {
                proof {
                    let vs = (*condition)->And_0;
                    assert(decreases_to!(*condition => vs));
                    assert(decreases_to!(vs => vs@));
                    vstd::seq::axiom_seq_index_decreases(vs@, i as int);
                }
                if !check_condition_wf(&conditions[i]) {
                    return false;
                }
                i += 1;
            }
            true
        },
        RuleCondition::Or(conditions) => {
            let mut i: usize = 0;
            while i < conditions.len()
                invariant
                    *condition == RuleCondition::Or(*conditions),
                    i <= conditions@.len(),
                    forall|j: int| 0 <= j < i ==> (#[trigger] conditions@[j]).wf(),
                decreases conditions@.len() - i,
            {
                proof {
                    let vs = (*condition)->Or_0;
                    assert(decreases_to!(*condition => vs));
                    assert(decreases_to!(vs => vs@));
                    vstd::seq::axiom_seq_index_decreases(vs@, i as int);
                }
                if !check_condition_wf(&conditions[i]) {
                    return false;
                }
                i += 1;
            }
            true
        },
        RuleCondition::Not(inner) => check_condition_wf(inner),
        RuleCondition::RelativeCell { pos, cell_id } => check_rel(pos),
        RuleCondition::RelativeCellNot { pos, cell_id } => check_rel(pos),
        RuleCondition::RelativeCellIn { pos, cell_id_list } => check_rel(pos),
        RuleCondition::RelativeCellNotIn { pos, cell_id_list } => check_rel(pos),
        RuleCondition::BinaryOp { op, a, b } => check_arg(a) && check_arg(b),
        RuleCondition::Always => true,
    }
}

/// Whether a rule tree is well formed against a catalog of `ncells`
/// materials.
pub fn check_rule(rule: &CellRule, ncells: u32) -> (r: bool)
    ensures
        r == rule.wf(ncells as int),
    decreases *rule,
{
    match rule {
        CellRule::Idle => true,
        CellRule::If { condition, action, else_action } => {
            if !check_condition_wf(condition) {
                return false;
            }
            if !check_rule(&**action, ncells) {
                return false;
            }
            match else_action {
                Some(e) => check_rule(&**e, ncells),
                None => true,
            }
        },
        CellRule::SwapWithIds { pos, match_ids } => check_rel(pos),
        CellRule::ApplyAndContinue(inner) => check_rule(&**inner, ncells),
        CellRule::FirstSuccess(rules) => {
            let mut i: usize = 0;
            while i < rules.len()
                invariant
                    *rule == CellRule::FirstSuccess(*rules),
                    i <= rules@.len(),
                    forall|j: int| 0 <= j < i ==> (#[trigger] rules@[j]).wf(ncells as int),
                decreases rules@.len() - i,
            {
                proof {
                    let vs = (*rule)->FirstSuccess_0;
                    assert(decreases_to!(*rule => vs));
                    assert(decreases_to!(vs => vs@));
                    vstd::seq::axiom_seq_index_decreases(vs@, i as int);
                }
                if !check_rule(&rules[i], ncells) {
                    return false;
                }
                i += 1;
            }
            true
        },
        CellRule::RandomPair(pair) => check_rule(&pair.0, ncells) && check_rule(
            &pair.1,
            ncells,
        ),
        CellRule::SymmetryX(inner) => check_rule(&**inner, ncells),
        CellRule::SymmetryY(inner) => check_rule(&**inner, ncells),
        CellRule::SymmetryDiagonal(inner) => check_rule(&**inner, ncells),
        CellRule::MirrorXIf { condition, rule: inner } => check_condition_wf(condition)
            && check_rule(&**inner, ncells),
        CellRule::MirrorYIf { condition, rule: inner } => check_condition_wf(condition)
            && check_rule(&**inner, ncells),
        CellRule::MirrorDiagonalIf { condition, rule: inner } => check_condition_wf(condition)
            && check_rule(&**inner, ncells),
        CellRule::TryAll(rules) => {
            let mut i: usize = 0;
            while i < rules.len()
                invariant
                    *rule == CellRule::TryAll(*rules),
                    i <= rules@.len(),
                    forall|j: int| 0 <= j < i ==> (#[trigger] rules@[j]).wf(ncells as int),
                decreases rules@.len() - i,
            {
                proof {
                    let vs = (*rule)->TryAll_0;
                    assert(decreases_to!(*rule => vs));
                    assert(decreases_to!(vs => vs@));
                    vstd::seq::axiom_seq_index_decreases(vs@, i as int);
                }
                if !check_rule(&rules[i], ncells) {
                    return false;
                }
                i += 1;
            }
            true
        },
        CellRule::InitCell { pos, cell_id } => check_rel(pos) && *cell_id < ncells,
        CellRule::SwapWith { pos } => check_rel(pos),
        CellRule::IncrementRegister { register, pos } => check_rel(pos) && (*register as usize)
            < crate::cell::CELL_REGISTERS_COUNT,
        CellRule::DecrementRegister { register, pos } => check_rel(pos) && (*register as usize)
            < crate::cell::CELL_REGISTERS_COUNT,
        CellRule::SetRegister { register, value, pos } => check_rel(pos) && (*register as usize)
            < crate::cell::CELL_REGISTERS_COUNT,
        CellRule::SerRegisterRandomMasked { register, mask, pos } => check_rel(pos) && (
        *register as usize) < crate::cell::CELL_REGISTERS_COUNT,
        CellRule::MoveRegister { source_register, source_cell, target_register, target_cell } => {
            check_rel(source_cell) && check_rel(target_cell) && (*source_register as usize)
                < crate::cell::CELL_REGISTERS_COUNT && (*target_register as usize)
                < crate::cell::CELL_REGISTERS_COUNT
        },
    }
}

/// Whether a whole catalog is well formed: ids match indices and every
/// rule tree only names materials and registers that exist. A catalog
/// that passes this check can drive the update engine.
pub fn check_template(template: &CellsTemplate) -> (r: bool)
    ensures
        r == template.wf(),
{
    let n = template.cells.len();
    if n == 0 {
        return false;
    }
    if n > u32::MAX as usize {
        return false;
    }

    let mut i: usize = 0;
    while i < n
        invariant
            n == template.cells@.len(),
            0 < n <= u32::MAX,
            i <= n,
            forall|j: int|
                0 <= j < i ==> (#[trigger] template.cells@[j]).wf(n as int)
                    && template.cells@[j].id == j,
        decreases n - i,
    {
        let meta = &template.cells[i];
        if meta.id as usize != i {
            return false;
        }
        let color_ok = match meta.color {
            CellColor::Plain(_) => true,
            CellColor::RandomizeBrightness(_, max_value) => max_value > 0,
        };
        if !color_ok {
            return false;
        }
        if !check_rule(&meta.rule, n as u32) {
            return false;
        }
        i += 1;
    }
    true
}

} // verus!

verus! {

/// Every sand-soak arm of the default catalog is well formed against a
/// catalog of five materials.
proof fn lemma_soak_arm_wf(r: CellRule, wx: int, wy: int)
    requires
        spec_soak_arm(r, wx, wy, 4, 0, 3),
        -128 < wx <= 127,
        -128 < wy <= 127,
    ensures
        r.wf(5),
{
    let b1 = r->SymmetryDiagonal_0;
    let b2 = (*b1)->SymmetryY_0;
    let condition = (*b2)->If_condition;
    let action = (*b2)->If_action;
    assert(condition.wf());
    let acts = (*action)->TryAll_0;
    assert forall|a: int| 0 <= a < 2 implies (#[trigger] acts@[a]).wf(5) by {
        if a == 0 {
            assert(acts@[0] matches CellRule::InitCell { pos, cell_id } && pos.wf() && cell_id
                < 5);
        } else {
            assert(acts@[1] matches CellRule::InitCell { pos, cell_id } && pos.wf() && cell_id
                < 5);
        }
    }
    assert((*action).wf(5));
    assert((*b2).wf(5));
    assert((*b1).wf(5));
}

/// The default sand rule tree is well formed against a catalog of five
/// materials.
proof fn lemma_sand_rule_wf(r: CellRule)
    requires
        spec_sand_rule(r, 0, 3, 4),
    ensures
        r.wf(5),
{
    let rules = r->FirstSuccess_0;
    assert forall|k: int| 0 <= k < 3 implies (#[trigger] rules@[k]).wf(5) by {
        if k == 0 {
            let pair = rules@[0]->RandomPair_0;
            lemma_soak_arm_wf(pair.0, 1, 1);
            lemma_soak_arm_wf(pair.1, 0, 1);
            assert(pair.0.wf(5) && pair.1.wf(5));
        } else if k == 1 {
            assert(rules@[1] matches CellRule::SwapWithIds { pos, match_ids } && pos.wf());
        } else {
            let inner = rules@[2]->SymmetryX_0;
            assert((*inner) matches CellRule::SwapWithIds { pos, match_ids } && pos.wf());
            assert((*inner).wf(5));
        }
    }
}

/// The default wet-sand rule tree is well formed against a catalog of
/// five materials.
proof fn lemma_wet_sand_rule_wf(r: CellRule)
    requires
        spec_wet_sand_rule(r, 0, 4),
    ensures
        r.wf(5),
{
    let rules = r->FirstSuccess_0;
    assert forall|k: int| 0 <= k < 2 implies (#[trigger] rules@[k]).wf(5) by {
        if k == 0 {
            assert(rules@[0] matches CellRule::SwapWithIds { pos, match_ids } && pos.wf());
        } else {
            let inner = rules@[1]->SymmetryX_0;
            assert((*inner) matches CellRule::SwapWithIds { pos, match_ids } && pos.wf());
            assert((*inner).wf(5));
        }
    }
}

/// The default water rule tree is well formed against a catalog of five
/// materials.
proof fn lemma_water_rule_wf(r: CellRule)
    requires
        spec_water_rule(r, 0),
    ensures
        r.wf(5),
{
    let rules = r->FirstSuccess_0;
    assert forall|k: int| 0 <= k < 7 implies (#[trigger] rules@[k]).wf(5) by {
        if k == 0 {
            let inner = rules@[0]->ApplyAndContinue_0;
            let condition = (*inner)->If_condition;
            let action = (*inner)->If_action;
            assert(condition.wf());
            let acts = (*action)->TryAll_0;
            assert forall|a: int| 0 <= a < 2 implies (#[trigger] acts@[a]).wf(5) by {
                if a == 0 {
                    assert(acts@[0].wf(5));
                } else {
                    assert(acts@[1].wf(5));
                }
            }
            assert((*action).wf(5));
            assert((*inner).wf(5));
        } else if k == 1 {
            assert((*(rules@[1]->If_action)).wf(5));
            assert((rules@[1]->If_condition).wf());
        } else if k == 2 {
            let pair = rules@[2]->RandomPair_0;
            assert((*(pair.0->If_action)).wf(5));
            assert((pair.0->If_condition).wf());
            assert((*(pair.1->If_action)).wf(5));
            assert((pair.1->If_condition).wf());
            assert(pair.0.wf(5) && pair.1.wf(5));
        } else {
            let cs = (rules@[k]->If_condition)->And_0;
            assert forall|c: int| 0 <= c < 2 implies (#[trigger] cs@[c]).wf() by {
                if c == 0 {
                    assert(cs@[0].wf());
                } else {
                    assert(cs@[1].wf());
                }
            }
            assert((rules@[k]->If_condition).wf());
            assert((*(rules@[k]->If_action)).wf(5));
        }
    }
}

/// The default material catalog: vacuum, stone, sand, wet sand and
/// water, with the rule trees that give them their behaviour. The
/// catalog is fully determined: it always assembles, is well formed,
/// and holds exactly the five materials described by
/// `spec_default_catalog`.
pub fn default_cells() -> (r: CellsTemplate)
    ensures
        r.wf(),
        spec_default_catalog(r),
{
    let water_is_initialized_register: u8 = 0;
    let water_dir_register: u8 = 1;
    let water_direction_left: u32 = 0;
    let water_direction_right: u32 = 1;

    let mut builder = CellTemplateBuilder::new();
    let ghost b0 = builder;

    let vacuum_id = builder.ensure_id_by_label("Vacuum");
    let ghost b1 = builder;
    let stone_id = builder.ensure_id_by_label("Stone");
    let ghost b2 = builder;
    let sand_id = builder.ensure_id_by_label("Sand");
    let ghost b3 = builder;
    let wet_sand_id = builder.ensure_id_by_label("Wet Sand");
    let ghost b4 = builder;
    let water_id = builder.ensure_id_by_label("Water");

    proof {
        reveal_strlit("Vacuum");
        reveal_strlit("Stone");
        reveal_strlit("Sand");
        reveal_strlit("Wet Sand");
        reveal_strlit("Water");
        assert("Vacuum"@.len() == 6);
        assert("Stone"@.len() == 5);
        assert("Sand"@.len() == 4);
        assert("Wet Sand"@.len() == 8);
        assert("Water"@.len() == 5);
        assert("Stone"@[0] == 'S' && "Water"@[0] == 'W');
        assert("Vacuum"@ != "Stone"@ && "Vacuum"@ != "Sand"@ && "Vacuum"@ != "Wet Sand"@
            && "Vacuum"@ != "Water"@);
        assert("Stone"@ != "Sand"@ && "Stone"@ != "Wet Sand"@ && "Stone"@ != "Water"@);
        assert("Sand"@ != "Wet Sand"@ && "Sand"@ != "Water"@);
        assert("Wet Sand"@ != "Water"@);
        assert(vacuum_id == 0);
        assert(b1.id_by_label@.len() == 1 && b1.id_by_label@[0].0@ == "Vacuum"@);
        assert(stone_id == 1);
        assert(b2.id_by_label@.len() == 2 && b2.id_by_label@[1].0@ == "Stone"@);
        assert(sand_id == 2);
        assert(b3.id_by_label@.len() == 3 && b3.id_by_label@[2].0@ == "Sand"@);
        assert(wet_sand_id == 3);
        assert(b4.id_by_label@.len() == 4 && b4.id_by_label@[3].0@ == "Wet Sand"@);
        assert(water_id == 4);
        assert(builder.id_by_label@.len() == 5);
        assert(builder.id_by_label@[0].0@ == "Vacuum"@ && builder.id_by_label@[0].1 == 0);
        assert(builder.id_by_label@[1].0@ == "Stone"@ && builder.id_by_label@[1].1 == 1);
        assert(builder.id_by_label@[2].0@ == "Sand"@ && builder.id_by_label@[2].1 == 2);
        assert(builder.id_by_label@[3].0@ == "Wet Sand"@ && builder.id_by_label@[3].1 == 3);
        assert(builder.id_by_label@[4].0@ == "Water"@ && builder.id_by_label@[4].1 == 4);
    }

    let id0 = builder.add_cell(CellMeta {
        color: CellColor::Plain([0, 0, 0, 0]),
        replaceable_by_particles: true,
        label: "Vacuum".to_owned(),
        rule: CellRule::Idle,
        count_age: false,
        initial_register_values: [0; crate::cell::CELL_REGISTERS_COUNT],
        id: 0,
    });
    proof {
        assert(id0 == 0);
    }

    let id1 = builder.add_cell(CellMeta {
        color: CellColor::RandomizeBrightness([120, 120, 120, 255], 32),
        replaceable_by_particles: false,
        label: "Stone".to_owned(),
        rule: CellRule::Idle,
        count_age: false,
        initial_register_values: [0; crate::cell::CELL_REGISTERS_COUNT],
        id: 0,
    });
    proof {
        assert(id1 == 1);
    }

    let mut sand_swap_down: Vec<CellId> = Vec::new();
    sand_swap_down.push(vacuum_id);
    sand_swap_down.push(water_id);
    let mut sand_swap_diag: Vec<CellId> = Vec::new();
    sand_swap_diag.push(vacuum_id);
    sand_swap_diag.push(water_id);

    let mut soak_first: Vec<CellRule> = Vec::new();
    soak_first.push(CellRule::InitCell { pos: RelativePos::new(1, 1), cell_id: vacuum_id });
    soak_first.push(CellRule::InitCell { pos: RelativePos::new(0, 0), cell_id: wet_sand_id });
    let mut soak_second: Vec<CellRule> = Vec::new();
    soak_second.push(CellRule::InitCell { pos: RelativePos::new(0, 1), cell_id: vacuum_id });
    soak_second.push(CellRule::InitCell { pos: RelativePos::new(0, 0), cell_id: wet_sand_id });

    let mut sand_rules: Vec<CellRule> = Vec::new();
    sand_rules.push(
        CellRule::random_pair(
            CellRule::symmetry_diagonal(
                CellRule::symmetry_y(
                    CellRule::if_then(
                        RuleCondition::RelativeCell {
                            pos: RelativePos::new(1, 1),
                            cell_id: water_id,
                        },
                        CellRule::TryAll(soak_first),
                    ),
                ),
            ),
            CellRule::symmetry_diagonal(
                CellRule::symmetry_y(
                    CellRule::if_then(
                        RuleCondition::RelativeCell {
                            pos: RelativePos::new(0, 1),
                            cell_id: water_id,
                        },
                        CellRule::TryAll(soak_second),
                    ),
                ),
            ),
        ),
    );
    sand_rules.push(CellRule::SwapWithIds { pos: RelativePos::down(), match_ids: sand_swap_down });
    sand_rules.push(
        CellRule::symmetry_x(
            CellRule::SwapWithIds { pos: RelativePos::down_right(), match_ids: sand_swap_diag },
        ),
    );

    let sand_rule = CellRule::FirstSuccess(sand_rules);
    proof {
        assert(spec_sand_rule(sand_rule, 0, 3, 4));
    }

    let id2 = builder.add_cell(CellMeta {
        id: sand_id,
        color: CellColor::RandomizeBrightness([190, 174, 110, 255], 16),
        replaceable_by_particles: false,
        count_age: true,
        initial_register_values: [0; crate::cell::CELL_REGISTERS_COUNT],
        label: "Sand".to_owned(),
        rule: sand_rule,
    });
    proof {
        assert(id2 == 2);
    }

    let mut wet_swap_down: Vec<CellId> = Vec::new();
    wet_swap_down.push(vacuum_id);
    wet_swap_down.push(water_id);
    let mut wet_swap_diag: Vec<CellId> = Vec::new();
    wet_swap_diag.push(vacuum_id);
    wet_swap_diag.push(water_id);

    let mut wet_sand_rules: Vec<CellRule> = Vec::new();
    wet_sand_rules.push(
        CellRule::SwapWithIds { pos: RelativePos::down(), match_ids: wet_swap_down },
    );
    wet_sand_rules.push(
        CellRule::symmetry_x(
            CellRule::SwapWithIds { pos: RelativePos::down_right(), match_ids: wet_swap_diag },
        ),
    );

    let wet_sand_rule = CellRule::FirstSuccess(wet_sand_rules);
    proof {
        assert(spec_wet_sand_rule(wet_sand_rule, 0, 4));
    }

    let id3 = builder.add_cell(CellMeta {
        id: wet_sand_id,
        color: CellColor::RandomizeBrightness([130, 120, 77, 255], 16),
        replaceable_by_particles: false,
        count_age: true,
        initial_register_values: [0; crate::cell::CELL_REGISTERS_COUNT],
        label: "Wet Sand".to_owned(),
        rule: wet_sand_rule,
    });
    proof {
        assert(id3 == 3);
    }

    let mut init_actions: Vec<CellRule> = Vec::new();
    init_actions.push(CellRule::set_reg_value(water_is_initialized_register, 1));
    init_actions.push(
        CellRule::SerRegisterRandomMasked {
            register: water_dir_register,
            mask: 1,
            pos: RelativePos::self_pos(),
        },
    );

    let mut go_left_cond: Vec<RuleCondition> = Vec::new();
    go_left_cond.push(RuleCondition::reg_eq(water_dir_register, water_direction_left));
    go_left_cond.push(
        RuleCondition::RelativeCell { pos: RelativePos::new(-1, 0), cell_id: vacuum_id },
    );

    let mut left_blocked_cond: Vec<RuleCondition> = Vec::new();
    left_blocked_cond.push(RuleCondition::reg_eq(water_dir_register, water_direction_left));
    left_blocked_cond.push(
        RuleCondition::RelativeCellNot { pos: RelativePos::new(-1, 0), cell_id: vacuum_id },
    );

    let mut go_right_cond: Vec<RuleCondition> = Vec::new();
    go_right_cond.push(RuleCondition::reg_not_eq(water_dir_register, water_direction_left));
    go_right_cond.push(
        RuleCondition::RelativeCell { pos: RelativePos::new(1, 0), cell_id: vacuum_id },
    );

    let mut right_blocked_cond: Vec<RuleCondition> = Vec::new();
    right_blocked_cond.push(RuleCondition::reg_not_eq(water_dir_register, water_direction_left));
    right_blocked_cond.push(
        RuleCondition::RelativeCellNot { pos: RelativePos::new(1, 0), cell_id: vacuum_id },
    );

    let mut water_rules: Vec<CellRule> = Vec::new();
    // set a random flow direction on first contact, then keep moving
    water_rules.push(
        CellRule::apply_and_continue(
            CellRule::if_then(
                RuleCondition::reg_eq(water_is_initialized_register, 0),
                CellRule::TryAll(init_actions),
            ),
        ),
    );
    // fall straight down into vacuum
    water_rules.push(
        CellRule::if_then(
            RuleCondition::RelativeCell { pos: RelativePos::new(0, -1), cell_id: vacuum_id },
            CellRule::SwapWith { pos: RelativePos::new(0, -1) },
        ),
    );
    // fall diagonally, in random order
    water_rules.push(
        CellRule::random_pair(
            CellRule::if_then(
                RuleCondition::RelativeCell { pos: RelativePos::new(-1, -1), cell_id: vacuum_id },
                CellRule::SwapWith { pos: RelativePos::new(-1, -1) },
            ),
            CellRule::if_then(
                RuleCondition::RelativeCell { pos: RelativePos::new(1, -1), cell_id: vacuum_id },
                CellRule::SwapWith { pos: RelativePos::new(1, -1) },
            ),
        ),
    );
    // flow left while the direction register says left
    water_rules.push(
        CellRule::if_then(
            RuleCondition::And(go_left_cond),
            CellRule::SwapWith { pos: RelativePos::new(-1, 0) },
        ),
    );
    // turn right when the way left is blocked
    water_rules.push(
        CellRule::if_then(
            RuleCondition::And(left_blocked_cond),
            CellRule::SetRegister {
                register: water_dir_register,
                value: water_direction_right,
                pos: RelativePos::self_pos(),
            },
        ),
    );
    // flow right while the direction register says right
    water_rules.push(
        CellRule::if_then(
            RuleCondition::And(go_right_cond),
            CellRule::SwapWith { pos: RelativePos::new(1, 0) },
        ),
    );
    // turn left when the way right is blocked
    water_rules.push(
        CellRule::if_then(
            RuleCondition::And(right_blocked_cond),
            CellRule::SetRegister {
                register: water_dir_register,
                value: water_direction_left,
                pos: RelativePos::self_pos(),
            },
        ),
    );

    let water_rule = CellRule::FirstSuccess(water_rules);
    proof {
        assert(spec_water_rule(water_rule, 0));
    }

    let id4 = builder.add_cell(CellMeta {
        id: water_id,
        color: CellColor::RandomizeBrightness([20, 20, 220, 255], 8),
        replaceable_by_particles: false,
        count_age: false,
        initial_register_values: [0; crate::cell::CELL_REGISTERS_COUNT],
        label: "Water".to_owned(),
        rule: water_rule,
    });
    proof {
        assert(id4 == 4);
        assert(forall|j: int| 0 <= j < 5 ==> (#[trigger] builder.cells@[j]) is Some);
    }

    let template = match builder.build() {
        Some(template) => template,
        None => {
            proof {
                assert(false);
            }
            CellsTemplate { cells: Vec::new() }
        },
    };

    proof {
        assert(spec_default_catalog(template));
        lemma_sand_rule_wf(template.cells@[2].rule);
        lemma_wet_sand_rule_wf(template.cells@[3].rule);
        lemma_water_rule_wf(template.cells@[4].rule);
        assert(template.wf());
    }

    template
}

} // verus!

verus! {

/// A relative offset with the given components.
pub open spec fn spec_rel(p: RelativePos, x: int, y: int) -> bool {
    p.x == x && p.y == y
}

/// A swap-with-whitelist rule: exchange with the cell at the offset when
/// it holds one of the two listed materials.
pub open spec fn spec_swap_ids_rule(r: CellRule, x: int, y: int, a: CellId, b: CellId) -> bool {
    r matches CellRule::SwapWithIds { pos, match_ids } && spec_rel(pos, x, y) && match_ids@
        =~= seq![a, b]
}

/// A conditional move: if the cell at the offset holds `id`, swap with
/// it.
pub open spec fn spec_move_into_rule(r: CellRule, x: int, y: int, id: CellId) -> bool {
    r matches CellRule::If { condition, action, else_action: None } && (
    condition matches RuleCondition::RelativeCell { pos, cell_id } && spec_rel(pos, x, y)
        && cell_id == id) && (*action matches CellRule::SwapWith { pos } && spec_rel(pos, x, y))
}

/// A comparison of one own register against a literal.
pub open spec fn spec_reg_cmp(
    c: RuleCondition,
    op: ConditionBinaryOp,
    register: u8,
    value: u32,
) -> bool {
    c == (RuleCondition::BinaryOp {
        op,
        a: ConditionArg::Register { pos: RelativePos { x: 0, y: 0 }, register },
        b: ConditionArg::Value(value),
    })
}

/// One arm of the sand-soaking pair: when water stands at the offset,
/// replace it by vacuum and turn the evaluated cell into wet sand; the
/// whole arm is wrapped to be retried under the diagonal and vertical
/// symmetries.
pub open spec fn spec_soak_arm(
    r: CellRule,
    wx: int,
    wy: int,
    water: CellId,
    vacuum: CellId,
    wet: CellId,
) -> bool {
    r matches CellRule::SymmetryDiagonal(b1) && (*b1 matches CellRule::SymmetryY(b2) && (
    *b2 matches CellRule::If { condition, action, else_action: None } && (
    condition matches RuleCondition::RelativeCell { pos, cell_id } && spec_rel(pos, wx, wy)
        && cell_id == water) && (*action matches CellRule::TryAll(acts) && acts@.len() == 2 && (
    acts@[0] matches CellRule::InitCell { pos, cell_id } && spec_rel(pos, wx, wy) && cell_id
        == vacuum) && (acts@[1] matches CellRule::InitCell { pos, cell_id } && spec_rel(pos, 0, 0)
        && cell_id == wet))))
}

/// The sand rule tree: soak up adjacent water into wet sand, else fall
/// straight down, else slide diagonally (retried mirrored).
pub open spec fn spec_sand_rule(r: CellRule, vacuum: CellId, wet: CellId, water: CellId) -> bool {
    r matches CellRule::FirstSuccess(rules) && rules@.len() == 3 && (
    rules@[0] matches CellRule::RandomPair(pair) && spec_soak_arm(pair.0, 1, 1, water, vacuum, wet)
        && spec_soak_arm(pair.1, 0, 1, water, vacuum, wet)) && spec_swap_ids_rule(
        rules@[1],
        0,
        -1,
        vacuum,
        water,
    ) && (rules@[2] matches CellRule::SymmetryX(b) && spec_swap_ids_rule(*b, 1, -1, vacuum, water))
}

/// The wet-sand rule tree: fall straight down, else slide diagonally.
pub open spec fn spec_wet_sand_rule(r: CellRule, vacuum: CellId, water: CellId) -> bool {
    r matches CellRule::FirstSuccess(rules) && rules@.len() == 2 && spec_swap_ids_rule(
        rules@[0],
        0,
        -1,
        vacuum,
        water,
    ) && (rules@[1] matches CellRule::SymmetryX(b) && spec_swap_ids_rule(*b, 1, -1, vacuum, water))
}

/// The water rule tree: draw a flow direction once, fall, slip
/// diagonally, then flow along the drawn direction, turning at walls.
pub open spec fn spec_water_rule(r: CellRule, vacuum: CellId) -> bool {
    r matches CellRule::FirstSuccess(rules) && rules@.len() == 7 && (
    rules@[0] matches CellRule::ApplyAndContinue(b) && (*b matches CellRule::If {
        condition,
        action,
        else_action: None,
    } && spec_reg_cmp(condition, ConditionBinaryOp::Eq, 0, 0) && (
    *action matches CellRule::TryAll(acts) && acts@.len() == 2 && acts@[0] == (
    CellRule::SetRegister { register: 0, value: 1, pos: RelativePos { x: 0, y: 0 } }) && acts@[1]
        == (CellRule::SerRegisterRandomMasked {
        register: 1,
        mask: 1,
        pos: RelativePos { x: 0, y: 0 },
    })))) && spec_move_into_rule(rules@[1], 0, -1, vacuum) && (
    rules@[2] matches CellRule::RandomPair(pair) && spec_move_into_rule(pair.0, -1, -1, vacuum)
        && spec_move_into_rule(pair.1, 1, -1, vacuum)) && (rules@[3] matches CellRule::If {
        condition,
        action,
        else_action: None,
    } && (condition matches RuleCondition::And(cs) && cs@.len() == 2 && spec_reg_cmp(
        cs@[0],
        ConditionBinaryOp::Eq,
        1,
        0,
    ) && (cs@[1] matches RuleCondition::RelativeCell { pos, cell_id } && spec_rel(pos, -1, 0)
        && cell_id == vacuum)) && (*action matches CellRule::SwapWith { pos } && spec_rel(
        pos,
        -1,
        0,
    ))) && (rules@[4] matches CellRule::If { condition, action, else_action: None } && (
    condition matches RuleCondition::And(cs) && cs@.len() == 2 && spec_reg_cmp(
        cs@[0],
        ConditionBinaryOp::Eq,
        1,
        0,
    ) && (cs@[1] matches RuleCondition::RelativeCellNot { pos, cell_id } && spec_rel(pos, -1, 0)
        && cell_id == vacuum)) && *action == (CellRule::SetRegister {
        register: 1,
        value: 1,
        pos: RelativePos { x: 0, y: 0 },
    })) && (rules@[5] matches CellRule::If { condition, action, else_action: None } && (
    condition matches RuleCondition::And(cs) && cs@.len() == 2 && spec_reg_cmp(
        cs@[0],
        ConditionBinaryOp::NotEq,
        1,
        0,
    ) && (cs@[1] matches RuleCondition::RelativeCell { pos, cell_id } && spec_rel(pos, 1, 0)
        && cell_id == vacuum)) && (*action matches CellRule::SwapWith { pos } && spec_rel(
        pos,
        1,
        0,
    ))) && (rules@[6] matches CellRule::If { condition, action, else_action: None } && (
    condition matches RuleCondition::And(cs) && cs@.len() == 2 && spec_reg_cmp(
        cs@[0],
        ConditionBinaryOp::NotEq,
        1,
        0,
    ) && (cs@[1] matches RuleCondition::RelativeCellNot { pos, cell_id } && spec_rel(pos, 1, 0)
        && cell_id == vacuum)) && *action == (CellRule::SetRegister {
        register: 1,
        value: 0,
        pos: RelativePos { x: 0, y: 0 },
    }))
}

/// All of a material's initial registers are cleared.
pub open spec fn spec_regs_zero(m: CellMeta) -> bool {
    forall|j: int| 0 <= j < CELL_REGISTERS_COUNT ==> #[trigger] m.initial_register_values[j] == 0
}

/// The exact content of the default catalog: five materials in id order
/// — vacuum, stone, sand, wet sand, water — with their labels, colours,
/// flags, cleared registers, and the rule trees described above.
pub open spec fn spec_default_catalog(t: CellsTemplate) -> bool {
    &&& t.cells@.len() == 5
    &&& forall|i: int| 0 <= i < 5 ==> (#[trigger] t.cells@[i]).id == i
    &&& forall|i: int| 0 <= i < 5 ==> spec_regs_zero(#[trigger] t.cells@[i])
    &&& t.cells@[0].label@ == "Vacuum"@
    &&& (t.cells@[0].color matches CellColor::Plain(c) && c@ =~= seq![0u8, 0u8, 0u8, 0u8])
    &&& !t.cells@[0].count_age
    &&& t.cells@[0].replaceable_by_particles
    &&& t.cells@[0].rule == CellRule::Idle
    &&& t.cells@[1].label@ == "Stone"@
    &&& (t.cells@[1].color matches CellColor::RandomizeBrightness(c, m) && c@ =~= seq![
        120u8,
        120u8,
        120u8,
        255u8,
    ] && m == 32)
    &&& !t.cells@[1].count_age
    &&& !t.cells@[1].replaceable_by_particles
    &&& t.cells@[1].rule == CellRule::Idle
    &&& t.cells@[2].label@ == "Sand"@
    &&& (t.cells@[2].color matches CellColor::RandomizeBrightness(c, m) && c@ =~= seq![
        190u8,
        174u8,
        110u8,
        255u8,
    ] && m == 16)
    &&& t.cells@[2].count_age
    &&& !t.cells@[2].replaceable_by_particles
    &&& spec_sand_rule(t.cells@[2].rule, 0, 3, 4)
    &&& t.cells@[3].label@ == "Wet Sand"@
    &&& (t.cells@[3].color matches CellColor::RandomizeBrightness(c, m) && c@ =~= seq![
        130u8,
        120u8,
        77u8,
        255u8,
    ] && m == 16)
    &&& t.cells@[3].count_age
    &&& !t.cells@[3].replaceable_by_particles
    &&& spec_wet_sand_rule(t.cells@[3].rule, 0, 4)
    &&& t.cells@[4].label@ == "Water"@
    &&& (t.cells@[4].color matches CellColor::RandomizeBrightness(c, m) && c@ =~= seq![
        20u8,
        20u8,
        220u8,
        255u8,
    ] && m == 8)
    &&& !t.cells@[4].count_age
    &&& !t.cells@[4].replaceable_by_particles
    &&& spec_water_rule(t.cells@[4].rule, 0)
}

} // verus!
