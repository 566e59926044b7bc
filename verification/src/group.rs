use vstd::prelude::*;
use crate::cell::{Cell, CellId, CELL_REGISTERS_COUNT};
use crate::random::{next_random_bool, xorshift_step};

verus! {

/// A general-purpose register value, as read by a group rule.
pub type CellRegister = u32;

/// One rule of the group-swap update scheme: a condition over a
/// two-by-two block of cells and the action to take when it matches,
/// optionally retried in mirrored form along either axis in random
/// order.
#[derive(Debug)]
pub struct UpdateRule {
    /// Also try the rule mirrored along the x axis, in random order.
    pub x_symmetry: bool,
    /// Also try the rule mirrored along the y axis, in random order.
    pub y_symmetry: bool,
    pub condition: RuleCondition,
    pub action: RuleAction,
}

/// A condition over the four cells of a group, indexed row-major.
#[derive(Debug)]
pub enum RuleCondition {
    /// Matches every group.
    Any,
    /// Each listed slot must hold exactly the given material.
    MatchId([Option<CellId>; 4]),
    /// Each listed slot must hold the given value in the given register.
    RegisterEq([Option<(usize, CellRegister)>; 4]),
    And(Vec<RuleCondition>),
    Or(Vec<RuleCondition>),
    Not(Box<RuleCondition>),
}

impl RuleCondition {
    /// Every register index named by the condition exists.
    pub open spec fn wf(self) -> bool
        decreases self,
    {
        match self {
            RuleCondition::Any => true,
            RuleCondition::MatchId(_) => true,
            RuleCondition::RegisterEq(registers) => forall|i: int|
                0 <= i < 4 ==> match #[trigger] registers[i] {
                    Some(entry) => entry.0 < CELL_REGISTERS_COUNT,
                    None => true,
                },
            RuleCondition::And(conditions) => forall|i: int|
                0 <= i < conditions@.len() ==> (#[trigger] conditions@[i]).wf(),
            RuleCondition::Or(conditions) => forall|i: int|
                0 <= i < conditions@.len() ==> (#[trigger] conditions@[i]).wf(),
            RuleCondition::Not(condition) => condition.wf(),
        }
    }
}

/// An action over the four cells of a group.
#[derive(Debug)]
pub enum RuleAction {
    /// Keep the group as it is.
    Keep,
    /// Mirror the group along one axis.
    Mirror { mirror_y: bool },
    /// Reinitialize the listed slots to the given materials.
    InitCells { cells: [Option<CellId>; 4] },
    /// Exchange two slots of the group.
    Swap { group_index_a: usize, group_index_b: usize },
    /// Run several actions in order.
    Multiple(Vec<RuleAction>),
}

impl RuleAction {
    /// Every slot index named by the action exists.
    pub open spec fn wf(self) -> bool
        decreases self,
    {
        match self {
            RuleAction::Keep => true,
            RuleAction::Mirror { .. } => true,
            RuleAction::InitCells { .. } => true,
            RuleAction::Swap { group_index_a, group_index_b } => group_index_a < 4
                && group_index_b < 4,
            RuleAction::Multiple(actions) => forall|i: int|
                0 <= i < actions@.len() ==> (#[trigger] actions@[i]).wf(),
        }
    }
}

impl UpdateRule {
    pub open spec fn wf(self) -> bool {
        self.condition.wf() && self.action.wf()
    }
}

/// A two-by-two block of cells, indexed row-major: 0 and 1 on top, 2 and
/// 3 below.
#[derive(Debug, Clone, Copy)]
pub struct CellGroup {
    pub cells: [Cell; 4],
}

/// The group mirrored along the x axis: the columns trade places.
pub open spec fn spec_swap_x(s: Seq<Cell>) -> Seq<Cell> {
    seq![s[1], s[0], s[3], s[2]]
}

/// The group mirrored along the y axis: the rows trade places.
pub open spec fn spec_swap_y(s: Seq<Cell>) -> Seq<Cell> {
    seq![s[2], s[3], s[0], s[1]]
}

pub open spec fn spec_swap(s: Seq<Cell>, along_x: bool, along_y: bool) -> Seq<Cell> {
    let sx = if along_x { spec_swap_x(s) } else { s };
    if along_y { spec_swap_y(sx) } else { sx }
}

/// What a condition means on a group's cells.
pub open spec fn spec_check(s: Seq<Cell>, condition: RuleCondition) -> bool
    decreases condition,
{
    match condition {
        RuleCondition::Any => true,
        RuleCondition::MatchId(ids) => forall|i: int|
            0 <= i < 4 ==> match #[trigger] ids[i] {
                Some(id) => s[i].id == id,
                None => true,
            },
        RuleCondition::RegisterEq(registers) => forall|i: int|
            0 <= i < 4 ==> match #[trigger] registers[i] {
                Some(entry) => s[i].registers[entry.0 as int] == entry.1,
                None => true,
            },
        RuleCondition::And(conditions) => forall|i: int|
            0 <= i < conditions@.len() ==> spec_check(s, #[trigger] conditions@[i]),
        RuleCondition::Or(conditions) => exists|i: int|
            0 <= i < conditions@.len() && spec_check(s, #[trigger] conditions@[i]),
        RuleCondition::Not(condition) => !spec_check(s, *condition),
    }
}

/// A freshly initialized cell of the group scheme: the material id with
/// cleared registers.
pub open spec fn spec_plain_cell(id: CellId) -> Cell {
    Cell { id, last_update: 0, registers: [0u32; CELL_REGISTERS_COUNT] }
}

/// What one action does to a group's cells.
pub open spec fn spec_apply(s: Seq<Cell>, action: RuleAction) -> Seq<Cell>
    decreases action,
{
    match action {
        RuleAction::Keep => s,
        RuleAction::Mirror { mirror_y } => if mirror_y {
            spec_swap_y(s)
        } else {
            spec_swap_x(s)
        },
        RuleAction::InitCells { cells } => Seq::new(
            4,
            |i: int|
                match cells[i] {
                    Some(id) => spec_plain_cell(id),
                    None => s[i],
                },
        ),
        RuleAction::Swap { group_index_a, group_index_b } => s.update(
            group_index_a as int,
            s[group_index_b as int],
        ).update(group_index_b as int, s[group_index_a as int]),
        RuleAction::Multiple(actions) => spec_apply_all(s, actions@),
    }
}

/// What a list of actions does to a group's cells, applied in order.
pub open spec fn spec_apply_all(s: Seq<Cell>, actions: Seq<RuleAction>) -> Seq<Cell>
    decreases actions, actions.len(),
{
    if actions.len() == 0 {
        s
    } else {
        spec_apply_all(spec_apply(s, actions[0]), actions.drop_first())
    }
}

impl CellGroup {
    pub open spec fn view_cells(self) -> Seq<Cell> {
        self.cells@
    }

    /// What one symmetric variant of a rule yields on this group: mirror
    /// the group, and if the condition matches the mirrored group, apply
    /// the action there and mirror the result back.
    pub open spec fn spec_variant(self, rule: UpdateRule, mx: bool, my: bool) -> Option<
        Seq<Cell>,
    > {
        let swapped = spec_swap(self.cells@, mx, my);
        if spec_check(swapped, rule.condition) {
            Some(spec_swap(spec_apply(swapped, rule.action), mx, my))
        } else {
            None
        }
    }
}

} // verus!

verus! {

impl CellGroup {
    /// Mirror the group along the x axis.
    pub fn swap_x(&mut self)
        ensures
            final(self).cells@ =~= spec_swap_x(old(self).cells@),
    {
        let tmp = self.cells[0];
        self.cells[0] = self.cells[1];
        self.cells[1] = tmp;
        let tmp = self.cells[2];
        self.cells[2] = self.cells[3];
        self.cells[3] = tmp;
    }

    /// Mirror the group along the y axis.
    pub fn swap_y(&mut self)
        ensures
            final(self).cells@ =~= spec_swap_y(old(self).cells@),
    {
        let tmp = self.cells[0];
        self.cells[0] = self.cells[2];
        self.cells[2] = tmp;
        let tmp = self.cells[1];
        self.cells[1] = self.cells[3];
        self.cells[3] = tmp;
    }

    /// Mirror the group along the chosen axes.
    pub fn swap(&mut self, along_x: bool, along_y: bool)
        ensures
            final(self).cells@ =~= spec_swap(old(self).cells@, along_x, along_y),
    {
        if along_x {
            self.swap_x();
        }
        if along_y {
            self.swap_y();
        }
    }

    /// Whether a condition matches this group.
    pub fn check_rule_condition(&self, condition: &RuleCondition) -> (r: bool)
        requires
            condition.wf(),
        ensures
            r == spec_check(self.cells@, *condition),
        decreases *condition,
    {
        match condition {
            RuleCondition::Any => true,
            RuleCondition::MatchId(ids) => {
                let mut i: usize = 0;
                while i < 4
                    invariant
                        i <= 4,
                        *condition == RuleCondition::MatchId(*ids),
                        forall|j: int|
                            0 <= j < i ==> match #[trigger] ids@[j] {
                                Some(id) => self.cells@[j].id == id,
                                None => true,
                            },
                    decreases 4 - i,
                {
                    if let Some(id) = ids[i] {
                        if self.cells[i].id != id {
                            return false;
                        }
                    }
                    i += 1;
                }
                true
            },
            RuleCondition::RegisterEq(registers) => {
                let mut i: usize = 0;
                while i < 4
                    invariant
                        i <= 4,
                        condition.wf(),
                        *condition == RuleCondition::RegisterEq(*registers),
                        forall|j: int|
                            0 <= j < i ==> match #[trigger] registers@[j] {
                                Some(entry) => self.cells@[j].registers[entry.0 as int]
                                    == entry.1,
                                None => true,
                            },
                    decreases 4 - i,
                {
                    if let Some((reg_index, value)) = registers[i] {
                        proof {
                            assert(registers@[i as int] matches Some(entry) && entry.0
                                < CELL_REGISTERS_COUNT);
                        }
                        if self.cells[i].registers[reg_index] != value {
                            return false;
                        }
                    }
                    i += 1;
                }
                true
            },
            RuleCondition::And(conditions) => {
                let mut i: usize = 0;
                while i < conditions.len()
                    invariant
                        i <= conditions@.len(),
                        condition.wf(),
                        *condition == RuleCondition::And(*conditions),
                        forall|j: int|
                            0 <= j < i ==> spec_check(self.cells@, #[trigger] conditions@[j]),
                    decreases conditions@.len() - i,
                {
                    proof {
                        let vs = (*condition)->And_0;
                        assert(decreases_to!(*condition => vs));
                        assert(decreases_to!(vs => vs@));
                        vstd::seq::axiom_seq_index_decreases(vs@, i as int);
                        assert(conditions@[i as int].wf());
                    }
                    if !self.check_rule_condition(&conditions[i]) {
                        proof {
                            assert(!spec_check(self.cells@, conditions@[i as int]));
                        }
                        return false;
                    }
                    i += 1;
                }
                true
            },
            RuleCondition::Or(conditions) => {
                let mut i: usize = 0;
                while i < conditions.len()
                    invariant
                        i <= conditions@.len(),
                        condition.wf(),
                        *condition == RuleCondition::Or(*conditions),
                        forall|j: int|
                            0 <= j < i ==> !spec_check(self.cells@, #[trigger] conditions@[j]),
                    decreases conditions@.len() - i,
                {
                    proof {
                        let vs = (*condition)->Or_0;
                        assert(decreases_to!(*condition => vs));
                        assert(decreases_to!(vs => vs@));
                        vstd::seq::axiom_seq_index_decreases(vs@, i as int);
                        assert(conditions@[i as int].wf());
                    }
                    if self.check_rule_condition(&conditions[i]) {
                        proof {
                            assert(spec_check(self.cells@, conditions@[i as int]));
                        }
                        return true;
                    }
                    i += 1;
                }
                false
            },
            RuleCondition::Not(inner) => !self.check_rule_condition(inner),
        }
    }

    /// Apply one action to this group.
    pub fn apply_action(&mut self, action: &RuleAction)
        requires
            action.wf(),
        ensures
            final(self).cells@ == spec_apply(old(self).cells@, *action),
        decreases *action,
    {
        match action {
            RuleAction::Keep => {},
            RuleAction::Mirror { mirror_y } => {
                if *mirror_y {
                    self.swap_y();
                } else {
                    self.swap_x();
                }
            },
            RuleAction::InitCells { cells } => {
                let mut i: usize = 0;
                while i < 4
                    invariant
                        i <= 4,
                        forall|j: int|
                            0 <= j < 4 ==> self.cells@[j] == (if j < i {
                                match cells@[j] {
                                    Some(id) => spec_plain_cell(id),
                                    None => old(self).cells@[j],
                                }
                            } else {
                                old(self).cells@[j]
                            }),
                    decreases 4 - i,
                {
                    if let Some(new_id) = cells[i] {
                        self.cells[i] = Cell {
                            id: new_id,
                            last_update: 0,
                            registers: [0; CELL_REGISTERS_COUNT],
                        };
                    }
                    i += 1;
                }
                proof {
                    assert(self.cells@ =~= spec_apply(old(self).cells@, *action));
                }
            },
            RuleAction::Swap { group_index_a, group_index_b } => {
                let a = *group_index_a;
                let b = *group_index_b;
                let tmp = self.cells[a];
                self.cells[a] = self.cells[b];
                self.cells[b] = tmp;
                proof {
                    assert(self.cells@ =~= spec_apply(old(self).cells@, *action));
                }
            },
            RuleAction::Multiple(actions) => {
                let mut i: usize = 0;
                while i < actions.len()
                    invariant
                        i <= actions@.len(),
                        action.wf(),
                        *action == RuleAction::Multiple(*actions),
                        spec_apply_all(old(self).cells@, actions@.take(i as int))
                            == self.cells@,
                    decreases actions@.len() - i,
                {
                    proof {
                        let vs = (*action)->Multiple_0;
                        assert(decreases_to!(*action => vs));
                        assert(decreases_to!(vs => vs@));
                        vstd::seq::axiom_seq_index_decreases(vs@, i as int);
                        assert(actions@[i as int].wf());
                    }
                    let ghost before = self.cells@;
                    self.apply_action(&actions[i]);
                    proof {
                        lemma_apply_all_snoc(old(self).cells@, actions@, i as int);
                    }
                    i += 1;
                }
                proof {
                    assert(actions@.take(actions@.len() as int) =~= actions@);
                }
            },
        }
    }
}

/// Applying one more action extends a prefix application by one step.
proof fn lemma_apply_all_snoc(s: Seq<Cell>, actions: Seq<RuleAction>, i: int)
    requires
        0 <= i < actions.len(),
    ensures
        spec_apply_all(s, actions.take(i + 1)) == spec_apply(
            spec_apply_all(s, actions.take(i)),
            actions[i],
        ),
    decreases i,
{
    let t_long = actions.take(i + 1);
    let t_short = actions.take(i);
    assert(t_long.len() == i + 1);
    assert(spec_apply_all(s, t_long) == spec_apply_all(
        spec_apply(s, t_long[0]),
        t_long.drop_first(),
    ));
    if i == 0 {
        assert(t_long.drop_first() =~= Seq::<RuleAction>::empty());
        assert(t_short =~= Seq::<RuleAction>::empty());
        assert(t_long[0] == actions[0]);
        assert(spec_apply_all(spec_apply(s, actions[0]), Seq::<RuleAction>::empty())
            == spec_apply(s, actions[0]));
        assert(spec_apply_all(s, t_short) == s);
    } else {
        let d = actions.drop_first();
        lemma_apply_all_snoc(spec_apply(s, actions[0]), d, i - 1);
        assert(t_long.drop_first() =~= d.take(i));
        assert(t_short.drop_first() =~= d.take(i - 1));
        assert(d[i - 1] == actions[i]);
        assert(t_long[0] == actions[0]);
        assert(t_short[0] == actions[0]);
        assert(t_short.len() == i);
        assert(spec_apply_all(s, t_short) == spec_apply_all(
            spec_apply(s, t_short[0]),
            t_short.drop_first(),
        ));
    }
}

} // verus!

verus! {

/// The random draws that trying one rule consumes: one bit per enabled
/// symmetry axis.
pub open spec fn spec_rule_draws(s: u64, rule: UpdateRule) -> u64 {
    let s1 = if rule.x_symmetry {
        xorshift_step(s)
    } else {
        s
    };
    if rule.y_symmetry {
        xorshift_step(s1)
    } else {
        s1
    }
}

/// The random state after the first `n` rules of a list have each been
/// tried once.
pub open spec fn spec_draws_through(s: u64, rules: Seq<UpdateRule>, n: int) -> u64
    decreases n,
{
    if n <= 0 {
        s
    } else {
        spec_draws_through(spec_rule_draws(s, rules[0]), rules.drop_first(), n - 1)
    }
}

/// Trying one more rule extends the draw chain by that rule's draws.
proof fn lemma_draws_through_snoc(s: u64, rules: Seq<UpdateRule>, i: int)
    requires
        0 <= i < rules.len(),
    ensures
        spec_draws_through(s, rules, i + 1) == spec_rule_draws(
            spec_draws_through(s, rules, i),
            rules[i],
        ),
    decreases i,
{
    if i == 0 {
        assert(spec_draws_through(s, rules, 0) == s);
        assert(spec_draws_through(spec_rule_draws(s, rules[0]), rules.drop_first(), 0)
            == spec_rule_draws(s, rules[0]));
    } else {
        lemma_draws_through_snoc(spec_rule_draws(s, rules[0]), rules.drop_first(), i - 1);
        assert(rules.drop_first()[i - 1] == rules[i]);
        assert(spec_draws_through(s, rules, i + 1) == spec_draws_through(
            spec_rule_draws(s, rules[0]),
            rules.drop_first(),
            i,
        ));
        assert(spec_draws_through(s, rules, i) == spec_draws_through(
            spec_rule_draws(s, rules[0]),
            rules.drop_first(),
            i - 1,
        ));
    }
}

/// Whether some permitted mirrored variant of a rule matches the group.
pub open spec fn spec_rule_matches(g: CellGroup, rule: UpdateRule) -> bool {
    exists|mx: bool, my: bool|
        (mx ==> rule.x_symmetry) && (my ==> rule.y_symmetry) && (#[trigger] g.spec_variant(
            rule,
            mx,
            my,
        )) is Some
}

/// Mirroring a group twice along the same axis gives the group back, and
/// mirrorings along different axes commute.
proof fn lemma_swap_props(s: Seq<Cell>)
    requires
        s.len() == 4,
    ensures
        spec_swap_x(spec_swap_x(s)) =~= s,
        spec_swap_y(spec_swap_y(s)) =~= s,
        spec_swap_x(spec_swap_y(s)) =~= spec_swap_y(spec_swap_x(s)),
        spec_swap_x(s).len() == 4,
        spec_swap_y(s).len() == 4,
{
}

impl CellGroup {
    /// Try one rule on this group: pick a random orientation, then try
    /// the rule there and in its remaining mirrored forms. The result,
    /// when there is one, is what some permitted variant of the rule
    /// yields; `None` means no permitted variant matched.
    pub fn try_apply_rule(&self, rule: &UpdateRule, random_state: &mut u64) -> (r: Option<
        CellGroup,
    >)
        requires
            rule.wf(),
        ensures
            *final(random_state) == spec_rule_draws(*old(random_state), *rule),
            r matches Some(g) ==> exists|mx: bool, my: bool|
                (mx ==> rule.x_symmetry) && (my ==> rule.y_symmetry)
                    && #[trigger] self.spec_variant(*rule, mx, my) == Some(g.cells@),
            r is None ==> forall|mx: bool, my: bool|
                (mx ==> rule.x_symmetry) && (my ==> rule.y_symmetry)
                    ==> #[trigger] self.spec_variant(*rule, mx, my) is None,
    {
        let ghost s0 = self.cells@;
        let mut new_group = *self;
        let swapped_x = rule.x_symmetry && next_random_bool(random_state);
        let swapped_y = rule.y_symmetry && next_random_bool(random_state);

        new_group.swap(swapped_x, swapped_y);
        proof {
            lemma_swap_props(s0);
            lemma_swap_props(spec_swap_x(s0));
            lemma_swap_props(spec_swap_y(s0));
            lemma_swap_props(spec_swap_x(spec_swap_y(s0)));
            lemma_swap_props(spec_swap_y(spec_swap_x(s0)));
        }

        if new_group.check_rule_condition(&rule.condition) {
            let mut new_group = new_group;
            new_group.apply_action(&rule.action);
            new_group.swap(swapped_x, swapped_y);
            proof {
                let applied = spec_apply(spec_swap(s0, swapped_x, swapped_y), rule.action);
                lemma_swap_props(applied);
                lemma_swap_props(spec_swap_x(applied));
                assert(self.spec_variant(*rule, swapped_x, swapped_y) == Some(
                    new_group.cells@,
                ));
            }
            return Some(new_group);
        }

        if rule.x_symmetry {
            new_group.swap_x();
            if new_group.check_rule_condition(&rule.condition) {
                proof {
                    assert(new_group.cells@ =~= spec_swap(s0, !swapped_x, swapped_y));
                }
                new_group.apply_action(&rule.action);
                new_group.swap_x();
                new_group.swap(swapped_x, swapped_y);
                proof {
                    let applied = spec_apply(spec_swap(s0, !swapped_x, swapped_y), rule.action);
                    lemma_swap_props(applied);
                    lemma_swap_props(spec_swap_x(applied));
                    lemma_swap_props(spec_swap_x(spec_swap_x(applied)));
                    assert(new_group.cells@ =~= spec_swap(applied, !swapped_x, swapped_y));
                    assert(self.spec_variant(*rule, !swapped_x, swapped_y) == Some(
                        new_group.cells@,
                    ));
                }
                return Some(new_group);
            }

            new_group.swap_x();
        }

        if rule.y_symmetry {
            new_group.swap_y();
            if new_group.check_rule_condition(&rule.condition) {
                proof {
                    assert(new_group.cells@ =~= spec_swap(s0, swapped_x, !swapped_y));
                }
                new_group.apply_action(&rule.action);
                new_group.swap_y();
                new_group.swap(swapped_x, swapped_y);
                proof {
                    let applied = spec_apply(spec_swap(s0, swapped_x, !swapped_y), rule.action);
                    lemma_swap_props(applied);
                    lemma_swap_props(spec_swap_y(applied));
                    lemma_swap_props(spec_swap_x(spec_swap_y(applied)));
                    assert(new_group.cells@ =~= spec_swap(applied, swapped_x, !swapped_y));
                    assert(self.spec_variant(*rule, swapped_x, !swapped_y) == Some(
                        new_group.cells@,
                    ));
                }
                return Some(new_group);
            }

            new_group.swap_y();
        }

        if rule.x_symmetry && rule.y_symmetry {
            new_group.swap(true, true);
            if new_group.check_rule_condition(&rule.condition) {
                proof {
                    assert(new_group.cells@ =~= spec_swap(s0, !swapped_x, !swapped_y));
                }
                new_group.apply_action(&rule.action);
                new_group.swap(true, true);
                new_group.swap(swapped_x, swapped_y);
                proof {
                    let applied = spec_apply(
                        spec_swap(s0, !swapped_x, !swapped_y),
                        rule.action,
                    );
                    lemma_swap_props(applied);
                    lemma_swap_props(spec_swap_x(applied));
                    lemma_swap_props(spec_swap_y(applied));
                    lemma_swap_props(spec_swap_y(spec_swap_x(applied)));
                    lemma_swap_props(spec_swap_x(spec_swap_y(spec_swap_x(applied))));
                    assert(new_group.cells@ =~= spec_swap(applied, !swapped_x, !swapped_y));
                    assert(self.spec_variant(*rule, !swapped_x, !swapped_y) == Some(
                        new_group.cells@,
                    ));
                }
                return Some(new_group);
            }

            new_group.swap(true, true);
        }

        proof {
            assert forall|mx: bool, my: bool|
                (mx ==> rule.x_symmetry) && (my ==> rule.y_symmetry) implies #[trigger]
                self.spec_variant(*rule, mx, my) is None by {
                if mx == swapped_x && my == swapped_y {
                } else if mx == !swapped_x && my == swapped_y {
                    assert(rule.x_symmetry || mx == swapped_x);
                } else if mx == swapped_x && my == !swapped_y {
                } else {
                }
            }
        }
        None
    }

    /// Try the rules in order; the first rule with a matching variant
    /// decides the group's next state.
    pub fn process(self, rules: &[UpdateRule], random_state: &mut u64) -> (r: Option<
        CellGroup,
    >)
        requires
            forall|i: int| 0 <= i < rules@.len() ==> (#[trigger] rules@[i]).wf(),
        ensures
            r matches Some(g) ==> exists|i: int|
                {
                    &&& 0 <= i < rules@.len()
                    &&& forall|j: int|
                        0 <= j < i ==> !spec_rule_matches(self, #[trigger] rules@[j])
                    &&& spec_rule_matches(self, #[trigger] rules@[i])
                    &&& exists|mx: bool, my: bool|
                        (mx ==> rules@[i].x_symmetry) && (my ==> rules@[i].y_symmetry) && (
                        #[trigger] self.spec_variant(rules@[i], mx, my)) == Some(g.cells@)
                    &&& *final(random_state) == spec_draws_through(
                        *old(random_state),
                        rules@,
                        i + 1,
                    )
                },
            r is None ==> (forall|i: int, mx: bool, my: bool|
                0 <= i < rules@.len() && (mx ==> rules@[i].x_symmetry) && (my ==> rules@[
                i].y_symmetry) ==> #[trigger] self.spec_variant(rules@[i], mx, my) is None)
                && *final(random_state) == spec_draws_through(
                *old(random_state),
                rules@,
                rules@.len() as int,
            ),
    {
        let mut i: usize = 0;
        while i < rules.len()
            invariant
                i <= rules@.len(),
                forall|j: int| 0 <= j < rules@.len() ==> (#[trigger] rules@[j]).wf(),
                forall|j: int, mx: bool, my: bool|
                    0 <= j < i && (mx ==> rules@[j].x_symmetry) && (my ==> rules@[
                    j].y_symmetry) ==> #[trigger] self.spec_variant(rules@[j], mx, my)
                        is None,
                *random_state == spec_draws_through(*old(random_state), rules@, i as int),
            decreases rules@.len() - i,
        {
            let ghost state_before = *random_state;
            if let Some(result_group) = self.try_apply_rule(&rules[i], random_state) {
                proof {
                    lemma_draws_through_snoc(*old(random_state), rules@, i as int);
                    assert forall|j: int| 0 <= j < i implies !spec_rule_matches(
                        self,
                        #[trigger] rules@[j],
                    ) by {
                        if spec_rule_matches(self, rules@[j]) {
                            let (mx, my) = choose|mx: bool, my: bool|
                                (mx ==> rules@[j].x_symmetry) && (my ==> rules@[
                                j].y_symmetry) && (#[trigger] self.spec_variant(
                                    rules@[j],
                                    mx,
                                    my,
                                )) is Some;
                        }
                    }
                }
                return Some(result_group);
            }
            proof {
                lemma_draws_through_snoc(*old(random_state), rules@, i as int);
                assert(!spec_rule_matches(self, rules@[i as int])) by {
                    if spec_rule_matches(self, rules@[i as int]) {
                        let (mx, my) = choose|mx: bool, my: bool|
                            (mx ==> rules@[i as int].x_symmetry) && (my ==> rules@[
                            i as int].y_symmetry) && (#[trigger] self.spec_variant(
                                rules@[i as int],
                                mx,
                                my,
                            )) is Some;
                    }
                }
            }
            i += 1;
        }

        None
    }
}

} // verus!
