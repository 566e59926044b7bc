use cellworld::cells::default_cells;
use cellworld::chunk::{Chunk, CHUNK_AREA};
use cellworld::config::{CellColor, CellsTemplate};
use cellworld::pos::GlobalCellPos;
use cellworld::world_state::WorldState;

const VACUUM: u32 = 0;
const STONE: u32 = 1;
const SAND: u32 = 2;

fn cell_id_at(world: &WorldState, x: i32, y: i32) -> u32 {
    let pos = GlobalCellPos::new(x, y);
    match world.get_chunk(pos.chunk) {
        Some(chunk) => chunk.get_cell(pos.cell).id,
        None => VACUUM,
    }
}

fn put(world: &mut WorldState, template: &CellsTemplate, x: i32, y: i32, id: u32) {
    let pos = GlobalCellPos::new(x, y);
    let cell = template.get_cell_meta(id).init();
    world.set_cell(pos, cell, template);
}

/// The concrete falling-sand scenario: a three-cell sand column over
/// empty space. Each tick, the column as a whole moves down one cell:
/// the cell below the column fills, the top cell empties, and no sand is
/// created or destroyed. (The exact lateral placement of the middle
/// cells depends on the randomized evaluation order, because an
/// unsupported grain whose way down is briefly blocked may slip
/// diagonally.)
#[test]
fn test_sand_column_falls() {
    let template = default_cells();
    let mut world = WorldState::new();

    put(&mut world, &template, 0, 0, SAND);
    put(&mut world, &template, 0, 1, SAND);
    put(&mut world, &template, 0, 2, SAND);

    world.update_state(&template);

    assert_eq!(cell_id_at(&world, 0, -1), SAND);
    assert_eq!(cell_id_at(&world, 0, 2), VACUUM);
    assert_eq!(count_sand(&world, -4, 4, -4, 4), 3);

    world.update_state(&template);

    assert_eq!(cell_id_at(&world, 0, -2), SAND);
    assert_eq!(cell_id_at(&world, 0, 1), VACUUM);
    assert_eq!(cell_id_at(&world, 0, 2), VACUUM);
    assert_eq!(count_sand(&world, -4, 4, -6, 4), 3);
}

fn count_sand(world: &WorldState, x0: i32, x1: i32, y0: i32, y1: i32) -> usize {
    let mut count = 0;
    for x in x0..=x1 {
        for y in y0..=y1 {
            if cell_id_at(world, x, y) == SAND {
                count += 1;
            }
        }
    }
    count
}

/// Gravity settling: a stack of sand grains dropped over a stone floor
/// comes to rest with every grain supported, with no grain lost, within
/// a bounded number of ticks — whatever the random seeds were.
#[test]
fn test_sand_settles_on_floor() {
    for _run in 0..8 {
        let template = default_cells();
        let mut world = WorldState::new();

        let n: i32 = 4;
        for x in -8..=8 {
            put(&mut world, &template, x, -1, STONE);
        }
        for y in 0..n {
            put(&mut world, &template, 0, 3 + y, SAND);
        }

        for _tick in 0..(3 * n + 6) {
            world.update_state(&template);
        }

        assert_eq!(count_sand(&world, -8, 8, -1, 8), n as usize);
        for x in -8..=8 {
            for y in 0..8 {
                if cell_id_at(&world, x, y) == SAND {
                    let below = cell_id_at(&world, x, y - 1);
                    assert_ne!(below, VACUUM, "a settled grain must rest on something");
                }
            }
        }
    }
}

/// Symmetry fairness: the per-cell random streams that pick the order of
/// a symmetry-wrapped rule's two alternatives produce both orderings at
/// roughly equal frequency, with no bias tied to cell index parity.
#[test]
fn test_symmetry_order_fairness() {
    let template = default_cells();
    let mut chunk = Chunk::new(&template);

    let mut ones_even = 0usize;
    let mut ones_odd = 0usize;
    for index in 0..CHUNK_AREA {
        for _draw in 0..4 {
            let bit = chunk.get_random_value(index) & 1;
            if bit == 1 {
                if index % 2 == 0 {
                    ones_even += 1;
                } else {
                    ones_odd += 1;
                }
            }
        }
    }

    let per_class = CHUNK_AREA * 4 / 2;
    let lo = per_class * 45 / 100;
    let hi = per_class * 55 / 100;
    assert!(ones_even >= lo && ones_even <= hi, "even-cell bias: {ones_even}");
    assert!(ones_odd >= lo && ones_odd <= hi, "odd-cell bias: {ones_odd}");
}

/// A plain colour is returned unchanged; a randomized colour honours a
/// brightness jitter that is already cached in the system register.
#[test]
fn test_cell_color_calculate() {
    let template = default_cells();
    let mut chunk = Chunk::new(&template);

    let plain = CellColor::Plain([10, 20, 30, 255]);
    assert_eq!(plain.calculate(&mut chunk, 0), [10, 20, 30, 255]);

    // preset the cache: flag bit set, brightness 5
    let mut cell = chunk.get_by_index(7);
    cell.registers[13] = (5 << 8) | 1;
    chunk.set_by_index(7, cell);

    let jittered = CellColor::RandomizeBrightness([10, 20, 250, 255], 16);
    assert_eq!(jittered.calculate(&mut chunk, 7), [15, 25, 255, 255]);

    // a fresh cell draws its jitter below the bound and caches it
    let color = jittered.calculate(&mut chunk, 9);
    let stored = (chunk.get_by_index(9).registers[13] >> 8) & 0xff;
    assert!(stored < 16);
    assert_eq!(color[0] as u32, 10 + stored);
    assert_eq!(chunk.get_by_index(9).registers[13] & 1, 1);
    // a second call reuses the cached jitter
    assert_eq!(jittered.calculate(&mut chunk, 9), color);
}

/// Water flows: a single water cell over a stone floor spreads sideways
/// instead of stacking.
#[test]
fn test_water_flows_sideways() {
    let template = default_cells();
    let mut world = WorldState::new();

    for x in -8..=8 {
        put(&mut world, &template, x, -1, STONE);
    }
    put(&mut world, &template, 0, 0, 4);

    for _tick in 0..4 {
        world.update_state(&template);
    }

    let mut water_cells = 0;
    let mut water_x = 0;
    for x in -8..=8 {
        for y in -1..4 {
            if cell_id_at(&world, x, y) == 4 {
                water_cells += 1;
                water_x = x;
            }
        }
    }
    assert_eq!(water_cells, 1);
    assert_ne!(water_x, 0, "water must have flowed off its spawn column");
}
