use cellworld::chunk::{ChunkPos, CHUNK_AREA, CHUNK_SIZE};
use cellworld::pos::{CellPos, GlobalCellPos};
use cellworld::position::{downscale_cord, mod_cord, Position};
use cellworld::true_mod::true_mod;
use cellworld::update::{
    get_absolute_cell_pos, AbsoluteCellPos, HorizontalSide, RelativePos, Side, VerticalSide,
};
use cellworld::world_state::{chunk_key, unpack_chunk_key};

#[test]
fn test_downscale_cord() {
    assert_eq!(downscale_cord(0, 100), 0);
    assert_eq!(downscale_cord(-1, 100), -1);
    assert_eq!(downscale_cord(-99, 100), -1);
    assert_eq!(downscale_cord(-100, 100), -1);
    assert_eq!(downscale_cord(-101, 100), -2);
    assert_eq!(downscale_cord(123, 100), 1);
    assert_eq!(downscale_cord(23, 100), 0);
    assert_eq!(downscale_cord(-23, 100), -1);
    assert_eq!(downscale_cord(-123, 100), -2);
}

#[test]
fn test_position_ord() {
    let pos0 = Position::new(0, 0);
    let pos1 = Position::new(1, 0);
    let pos2 = Position::new(0, 1);
    let pos3 = Position::new(1, 1);

    assert_eq!(pos0.cmp(&pos1), std::cmp::Ordering::Less);
    assert_eq!(pos0.cmp(&pos2), std::cmp::Ordering::Less);
    assert_eq!(pos0.cmp(&pos3), std::cmp::Ordering::Less);

    assert_eq!(pos1.cmp(&pos2), std::cmp::Ordering::Less);
    assert_eq!(pos1.cmp(&pos3), std::cmp::Ordering::Less);

    assert_eq!(pos2.cmp(&pos3), std::cmp::Ordering::Less);
}

#[test]
fn test_true_mod() {
    assert_eq!(true_mod(5, 3), 2);
    assert_eq!(true_mod(-5, 3), 1);

    assert_eq!(true_mod(5, 8), 5);
    assert_eq!(true_mod(-5, 8), 3);
    assert_eq!(true_mod(-13, 8), 3);
    assert_eq!(true_mod(-8, 8), 0);
    assert_eq!(true_mod(-1, 8), 7);
    assert_eq!(true_mod(-9, 8), 7);
}

#[test]
fn test_chunk_pos_to_index() {
    let pos = CellPos::new(5, 13);
    let index = pos.to_index();

    assert_eq!(CellPos::from_index(index), pos);
}

#[test]
fn test_global_cell_pos() {
    for x in -(CHUNK_SIZE as i32) * 3..(CHUNK_SIZE as i32) * 3 {
        for y in -(CHUNK_SIZE as i32) * 3..(CHUNK_SIZE as i32) * 3 {
            let pos = GlobalCellPos::new(x, y);

            assert_eq!(pos.x(), x);
            assert_eq!(pos.y(), y);

            assert_eq!(GlobalCellPos::new(pos.x(), pos.y()), pos);
        }
    }
}

#[test]
fn test_get_absolute_cell_pos() {
    let center = get_absolute_cell_pos(0, RelativePos::self_pos());
    assert_eq!(center, AbsoluteCellPos::central(0));

    let left_top = get_absolute_cell_pos(0, RelativePos::new(-1, 1));
    assert_eq!(
        left_top,
        AbsoluteCellPos {
            index: CHUNK_SIZE - 1 + CHUNK_SIZE,
            side: Side {
                horizontal: HorizontalSide::Left,
                vertical: VerticalSide::Center
            }
        }
    );

    let right_bottom = get_absolute_cell_pos(0, RelativePos::new(1, -1));
    assert_eq!(
        right_bottom,
        AbsoluteCellPos {
            index: 1 + CHUNK_SIZE * (CHUNK_SIZE - 1),
            side: Side {
                horizontal: HorizontalSide::Center,
                vertical: VerticalSide::Bottom
            }
        }
    );

    let right_bottom = get_absolute_cell_pos(0, RelativePos::new(3, -1));
    assert_eq!(
        right_bottom,
        AbsoluteCellPos {
            index: 3 + CHUNK_SIZE * (CHUNK_SIZE - 1),
            side: Side {
                horizontal: HorizontalSide::Center,
                vertical: VerticalSide::Bottom
            }
        }
    );

    let left = get_absolute_cell_pos(0, RelativePos::new(-1, 0));
    assert_eq!(
        left,
        AbsoluteCellPos {
            index: CHUNK_SIZE - 1,
            side: Side {
                horizontal: HorizontalSide::Left,
                vertical: VerticalSide::Center
            }
        }
    );
}

#[test]
fn test_cell_index_round_trip() {
    for index in 0..CHUNK_AREA {
        let pos = CellPos::from_index(index);
        assert!((pos.x as usize) < CHUNK_SIZE);
        assert!((pos.y as usize) < CHUNK_SIZE);
        assert_eq!(pos.to_index(), index);
    }
}

#[test]
fn test_mod_cord_matches_true_mod() {
    for v in -500..500 {
        assert_eq!(mod_cord(v, 128) as i32, true_mod(v, 128));
        assert_eq!(downscale_cord(v, 128) * 128 + mod_cord(v, 128) as i32, v);
    }
}

#[test]
fn test_chunk_key_round_trip() {
    let poss = [
        ChunkPos::new(0, 0),
        ChunkPos::new(1, -1),
        ChunkPos::new(-1, 1),
        ChunkPos::new(i32::MAX, i32::MIN),
        ChunkPos::new(-123456, 654321),
    ];
    for pos in poss {
        assert_eq!(unpack_chunk_key(chunk_key(pos)), pos);
    }
    assert_eq!(chunk_key(ChunkPos::new(0, 1)), 1);
    assert_eq!(chunk_key(ChunkPos::new(1, 0)), 1u64 << 32);
    assert_ne!(
        chunk_key(ChunkPos::new(-1, 0)),
        chunk_key(ChunkPos::new(0, -1))
    );
}

#[test]
fn test_move_towards() {
    assert_eq!(cellworld::update::move_towards(3, 7), 4);
    assert_eq!(cellworld::update::move_towards(7, 3), 6);
    assert_eq!(cellworld::update::move_towards(5, 5), 5);
}

#[test]
fn test_partition_disjointness() {
    // coordinates in the same class modulo three never share a window
    let sample = [
        (0, 0),
        (3, 0),
        (0, 3),
        (-3, 0),
        (0, -3),
        (6, -9),
        (-300, 303),
        (12345, -6789),
        (-2, 1),
        (1, -2),
        (4, 7),
        (-5, -8),
    ];
    for &(x1, y1) in &sample {
        for &(x2, y2) in &sample {
            if (x1, y1) == (x2, y2) {
                continue;
            }
            if true_mod(x1, 3) != true_mod(x2, 3) || true_mod(y1, 3) != true_mod(y2, 3) {
                continue;
            }
            for dx1 in -1..=1 {
                for dy1 in -1..=1 {
                    for dx2 in -1..=1 {
                        for dy2 in -1..=1 {
                            assert!(
                                (x1 + dx1, y1 + dy1) != (x2 + dx2, y2 + dy2),
                                "windows of ({x1},{y1}) and ({x2},{y2}) overlap"
                            );
                        }
                    }
                }
            }
        }
    }
}
