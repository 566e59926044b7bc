use cellworld::cell::Cell;
use cellworld::group::{CellGroup, RuleAction, RuleCondition, UpdateRule};

const VACUUM: u32 = 0;
const WALL: u32 = 1;
const SAND: u32 = 2;

fn plain(id: u32) -> Cell {
    Cell { id, last_update: 0, registers: [0; 14] }
}

fn group(ids: [u32; 4]) -> CellGroup {
    CellGroup { cells: [plain(ids[0]), plain(ids[1]), plain(ids[2]), plain(ids[3])] }
}

fn fall_rule() -> UpdateRule {
    UpdateRule {
        x_symmetry: true,
        y_symmetry: false,
        condition: RuleCondition::MatchId([Some(VACUUM), None, Some(SAND), None]),
        action: RuleAction::Swap { group_index_a: 0, group_index_b: 2 },
    }
}

#[test]
fn test_group_swap_axes() {
    let mut g = group([0, 1, 2, 3]);
    g.swap_x();
    let ids: Vec<u32> = g.cells.iter().map(|c| c.id).collect();
    assert_eq!(ids, vec![1, 0, 3, 2]);
    g.swap_y();
    let ids: Vec<u32> = g.cells.iter().map(|c| c.id).collect();
    assert_eq!(ids, vec![3, 2, 1, 0]);
    g.swap(true, true);
    let ids: Vec<u32> = g.cells.iter().map(|c| c.id).collect();
    assert_eq!(ids, vec![0, 1, 2, 3]);
}

#[test]
fn test_group_rule_applies_in_place() {
    // only the unmirrored variant matches, so the outcome is fixed
    let g = group([VACUUM, WALL, SAND, WALL]);
    let mut state: u64 = 7;
    let result = g.process(&[fall_rule()], &mut state).expect("the rule must match");
    assert_eq!(result.cells[0].id, SAND);
    assert_eq!(result.cells[2].id, VACUUM);
    assert_eq!(result.cells[1].id, WALL);
    assert_eq!(result.cells[3].id, WALL);
}

#[test]
fn test_group_rule_applies_mirrored() {
    // only the x-mirrored variant matches
    let g = group([WALL, VACUUM, WALL, SAND]);
    let mut state: u64 = 7;
    let result = g.process(&[fall_rule()], &mut state).expect("the mirrored rule must match");
    assert_eq!(result.cells[1].id, SAND);
    assert_eq!(result.cells[3].id, VACUUM);
}

#[test]
fn test_group_rule_rejects() {
    let g = group([WALL, WALL, SAND, SAND]);
    let mut state: u64 = 7;
    assert!(g.process(&[fall_rule()], &mut state).is_none());
}

#[test]
fn test_group_conditions_and_actions() {
    let mut lit = plain(SAND);
    lit.registers[3] = 9;
    let g = CellGroup { cells: [lit, plain(VACUUM), plain(VACUUM), plain(VACUUM)] };

    let rule = UpdateRule {
        x_symmetry: false,
        y_symmetry: false,
        condition: RuleCondition::And(vec![
            RuleCondition::RegisterEq([Some((3, 9)), None, None, None]),
            RuleCondition::Not(Box::new(RuleCondition::MatchId([
                Some(VACUUM),
                None,
                None,
                None,
            ]))),
        ]),
        action: RuleAction::Multiple(vec![
            RuleAction::InitCells { cells: [Some(WALL), None, None, None] },
            RuleAction::Mirror { mirror_y: true },
        ]),
    };

    let mut state: u64 = 123;
    let result = g.process(&[rule], &mut state).expect("the condition must match");
    let ids: Vec<u32> = result.cells.iter().map(|c| c.id).collect();
    // slot 0 became wall, then rows swapped
    assert_eq!(ids, vec![VACUUM, VACUUM, WALL, VACUUM]);
    assert_eq!(result.cells[2].registers[3], 0);
}
