use cellworld::cells::{check_template, default_cells, CellTemplateBuilder};
use cellworld::config::{CellColor, CellMeta, CellRule, CellsTemplate};

fn meta(label: &str, rule: CellRule) -> CellMeta {
    CellMeta {
        id: 0,
        color: CellColor::Plain([0, 0, 0, 0]),
        label: label.to_owned(),
        rule,
        count_age: false,
        replaceable_by_particles: false,
        initial_register_values: [0; 14],
    }
}

#[test]
fn test_default_cells_build() {
    let template = default_cells();
    assert_eq!(template.cells.len(), 5);
    for (index, cell) in template.cells.iter().enumerate() {
        assert_eq!(cell.id as usize, index);
    }
    assert_eq!(template.get_cell_meta_by_label("Vacuum").unwrap().id, 0);
    assert_eq!(template.get_cell_meta_by_label("Stone").unwrap().id, 1);
    assert_eq!(template.get_cell_meta_by_label("Sand").unwrap().id, 2);
    assert_eq!(template.get_cell_meta_by_label("Wet Sand").unwrap().id, 3);
    assert_eq!(template.get_cell_meta_by_label("Water").unwrap().id, 4);
    assert!(template.get_cell_meta_by_label("Lava").is_none());
    assert!(check_template(&template));
}

#[test]
fn test_builder_same_label_same_id() {
    let mut builder = CellTemplateBuilder::new();
    let a = builder.ensure_id_by_label("One");
    let b = builder.ensure_id_by_label("Two");
    let a2 = builder.ensure_id_by_label("One");
    assert_eq!(a, 0);
    assert_eq!(b, 1);
    assert_eq!(a2, a);
}

#[test]
fn test_builder_missing_cell_fails() {
    let mut builder = CellTemplateBuilder::new();
    builder.ensure_id_by_label("Ghost Label");
    builder.add_cell(meta("Filled", CellRule::Idle));
    assert!(builder.build().is_none());
}

#[test]
fn test_builder_complete_build() {
    let mut builder = CellTemplateBuilder::new();
    builder.add_cell(meta("A", CellRule::Idle));
    builder.add_cell(meta("B", CellRule::Idle));
    let template = builder.build().expect("all ids have materials");
    assert_eq!(template.cells.len(), 2);
    assert_eq!(template.cells[0].label, "A");
    assert_eq!(template.cells[1].label, "B");
    assert!(check_template(&template));
}

#[test]
fn test_check_template_rejects_bad_ids() {
    let template = CellsTemplate {
        cells: vec![meta("Only", CellRule::Idle)],
    };
    assert!(check_template(&template));

    let mut wrong = meta("Wrong", CellRule::Idle);
    wrong.id = 3;
    let template = CellsTemplate { cells: vec![wrong] };
    assert!(!check_template(&template));

    let empty = CellsTemplate { cells: vec![] };
    assert!(!check_template(&empty));
}

#[test]
fn test_check_template_rejects_unknown_material() {
    let bad_rule = CellRule::InitCell {
        pos: cellworld::update::RelativePos::new(0, -1),
        cell_id: 9,
    };
    let template = CellsTemplate {
        cells: vec![meta("Bad", bad_rule)],
    };
    assert!(!check_template(&template));
}

#[test]
fn test_check_template_rejects_zero_brightness_bound() {
    let mut bad = meta("Dark", CellRule::Idle);
    bad.color = CellColor::RandomizeBrightness([1, 2, 3, 255], 0);
    let template = CellsTemplate { cells: vec![bad] };
    assert!(!check_template(&template));
}
