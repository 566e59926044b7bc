use vstd::prelude::*;
use crate::config::{CellMeta, CellsTemplate};
use crate::pos::GlobalCellPos;
use crate::world_state::WorldState;

verus! {

/// Fill the rectangle from `start` (inclusive) to `end` (exclusive) with
/// freshly initialized cells of one material.
pub fn gen_rect(
    world: &mut WorldState,
    cells_template: &CellsTemplate,
    start: GlobalCellPos,
    end: GlobalCellPos,
    cell_meta: &CellMeta,
)
    requires
        old(world).wf(cells_template.cells@.len() as int),
        cells_template.wf(),
        start.wf(),
        end.wf(),
        i32::MIN <= start.spec_x() <= i32::MAX,
        i32::MIN <= start.spec_y() <= i32::MAX,
        i32::MIN <= end.spec_x() <= i32::MAX,
        i32::MIN <= end.spec_y() <= i32::MAX,
        cell_meta.id < cells_template.cells@.len(),
    ensures
        final(world).wf(cells_template.cells@.len() as int),
        final(world).spec_tick() == old(world).spec_tick(),
{
    let start_x = start.x();
    let end_x = end.x();
    let start_y = start.y();
    let end_y = end.y();

    let mut y = start_y;
    while y < end_y
        invariant
            world.wf(cells_template.cells@.len() as int),
            cells_template.wf(),
            cell_meta.id < cells_template.cells@.len(),
            world.spec_tick() == old(world).spec_tick(),
            start_y <= y <= end_y || y == start_y,
        decreases end_y - y,
    {
        let mut x = start_x;
        while x < end_x
            invariant
                world.wf(cells_template.cells@.len() as int),
                cells_template.wf(),
                cell_meta.id < cells_template.cells@.len(),
                world.spec_tick() == old(world).spec_tick(),
                y < end_y,
                start_x <= x <= end_x || x == start_x,
            decreases end_x - x,
        {
            let pos = GlobalCellPos::new(x, y);
            world.set_cell(pos, cell_meta.init(), cells_template);
            x += 1;
        }
        y += 1;
    }
}

/// Generate the default terrain: a long stone floor with a tall block of
/// sand resting on part of it.
pub fn gen_world(world: &mut WorldState, cells_template: &CellsTemplate)
    requires
        old(world).wf(cells_template.cells@.len() as int),
        cells_template.wf(),
    ensures
        final(world).wf(cells_template.cells@.len() as int),
        final(world).spec_tick() == old(world).spec_tick(),
{
    let sand_meta = cells_template.get_cell_meta_by_label("Sand");
    let stone_meta = cells_template.get_cell_meta_by_label("Stone");

    if let Some(stone_meta) = stone_meta {
        gen_rect(
            world,
            cells_template,
            GlobalCellPos::new(-1500, 0),
            GlobalCellPos::new(1500, 3),
            stone_meta,
        );
    }

    if let Some(sand_meta) = sand_meta {
        gen_rect(
            world,
            cells_template,
            GlobalCellPos::new(200, 10),
            GlobalCellPos::new(300, 510),
            sand_meta,
        );
    }
}

} // verus!
