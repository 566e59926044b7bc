use cellworld::cells::default_cells;
use cellworld::chunk::ChunkPos;
use cellworld::pos::GlobalCellPos;
use cellworld::world_state::WorldState;

#[test]
fn test_world_chunk_lifecycle() {
    let template = default_cells();
    let mut world = WorldState::new();
    assert_eq!(world.len(), 0);

    world.ensure_chunk(ChunkPos::new(0, 0), &template);
    world.ensure_chunk(ChunkPos::new(0, -1), &template);
    assert_eq!(world.len(), 2);
    assert!(world.get_chunk(ChunkPos::new(0, 0)).is_some());
    assert!(world.get_chunk(ChunkPos::new(5, 5)).is_none());

    let chunk = world.take_chunk(ChunkPos::new(0, 0), &template);
    assert_eq!(world.len(), 1);
    world.set_chunk(ChunkPos::new(0, 0), chunk);
    assert_eq!(world.len(), 2);

    // a take of a missing chunk synthesizes a fresh all-vacuum chunk
    let fresh = world.take_chunk(ChunkPos::new(9, 9), &template);
    assert_eq!(fresh.get_by_index(0).id, 0);
    assert!(!fresh.should_update());
    assert_eq!(world.len(), 2);
}

#[test]
fn test_set_cell_marks_chunk_dirty() {
    let template = default_cells();
    let mut world = WorldState::new();

    let pos = GlobalCellPos::new(-3, -200);
    let sand = template.get_cell_meta(2).init();
    world.set_cell(pos, sand, &template);

    let chunk = world.get_chunk(pos.chunk).expect("the chunk was created");
    assert!(chunk.should_update());
    assert!(chunk.should_redraw());
    assert_eq!(chunk.get_cell(pos.cell).id, 2);
}

#[test]
fn test_update_counts_dirty_chunks() {
    let template = default_cells();
    let mut world = WorldState::new();

    // two dirty chunks far apart, one clean chunk
    world.set_cell(GlobalCellPos::new(0, 0), template.get_cell_meta(2).init(), &template);
    world.set_cell(GlobalCellPos::new(1000, 0), template.get_cell_meta(2).init(), &template);
    world.ensure_chunk(ChunkPos::new(50, 50), &template);

    let updated = world.update_state(&template);
    assert_eq!(updated, 2);

    // the worked chunks and their neighbours are all present afterwards
    assert!(world.get_chunk(ChunkPos::new(0, 0)).is_some());
    assert!(world.get_chunk(ChunkPos::new(1, 1)).is_some());
    assert!(world.get_chunk(ChunkPos::new(-1, -1)).is_some());
    assert!(world.get_chunk(ChunkPos::new(50, 50)).is_some());
}

#[test]
fn test_world_generation_places_terrain() {
    let template = default_cells();
    let mut world = WorldState::new();

    cellworld::gen::gen_rect(
        &mut world,
        &template,
        GlobalCellPos::new(-2, 0),
        GlobalCellPos::new(2, 2),
        template.get_cell_meta(1),
    );

    for x in -2..2 {
        for y in 0..2 {
            let pos = GlobalCellPos::new(x, y);
            let chunk = world.get_chunk(pos.chunk).unwrap();
            assert_eq!(chunk.get_cell(pos.cell).id, 1);
        }
    }
    let outside = GlobalCellPos::new(2, 0);
    assert_eq!(world.get_chunk(outside.chunk).unwrap().get_cell(outside.cell).id, 0);
}

#[test]
fn test_update_stamps_moved_cells() {
    let template = default_cells();
    let mut world = WorldState::new();

    world.set_cell(GlobalCellPos::new(0, 0), template.get_cell_meta(2).init(), &template);
    world.update_state(&template);

    // the grain moved to (0, -1) and carries the tick stamp of the pass
    let pos = GlobalCellPos::new(0, -1);
    let cell = world.get_chunk(pos.chunk).unwrap().get_cell(pos.cell);
    assert_eq!(cell.id, 2);
    assert_eq!(cell.last_update, 1);

    world.update_state(&template);
    let pos = GlobalCellPos::new(0, -2);
    let cell = world.get_chunk(pos.chunk).unwrap().get_cell(pos.cell);
    assert_eq!(cell.id, 2);
    assert_eq!(cell.last_update, 2);
}
