use rockquid::geometry::Pos;
use rockquid::occupancy::OccupancyGrid;
use rockquid::streamer::Tile;

#[test]
fn a_new_grid_is_free_all_over_the_map_and_nowhere_else() {
    let grid = OccupancyGrid::new();
    for x in -3..36 {
        for y in -3..36 {
            let on_map = 0 <= x && x < 32 && 0 <= y && y < 32;
            assert_eq!(on_map, grid.free_at(Pos::new(x, y)));
        }
    }
}

#[test]
fn blocking_a_cell_changes_that_cell_only() {
    let mut grid = OccupancyGrid::new();
    grid.block(Pos::new(3, 7));
    for x in 0..32 {
        for y in 0..32 {
            assert_eq!(!(x == 3 && y == 7), grid.free_at(Pos::new(x, y)));
        }
    }
}

#[test]
fn blocking_off_the_map_is_dropped() {
    let mut grid = OccupancyGrid::new();
    grid.block(Pos::new(32, 0));
    grid.block(Pos::new(33, 33));
    grid.block(Pos::new(-1, 4));
    grid.block(Pos::new(4, 32));
    grid.block(Pos::new(i32::MAX, i32::MIN));
    for x in 0..32 {
        for y in 0..32 {
            assert!(grid.free_at(Pos::new(x, y)));
        }
    }
}

#[test]
fn the_grid_of_some_tiles_blocks_their_cells() {
    let tiles = vec![
        Tile::at(-512_000, 0),
        Tile::at(0, 0),
        Tile::at(10_000, -10_000),
        Tile::at(480_000, 480_000),
    ];
    let grid = OccupancyGrid::build(&tiles);
    let blocked = [Pos::new(0, 16), Pos::new(16, 16), Pos::new(31, 31)];
    for x in 0..32 {
        for y in 0..32 {
            let p = Pos::new(x, y);
            assert_eq!(!blocked.contains(&p), grid.free_at(p));
        }
    }
}

#[test]
fn tiles_off_the_map_leave_the_grid_free() {
    let tiles = vec![
        Tile::at(512_000, 0),
        Tile::at(0, 512_000),
        Tile::at(-600_000, 0),
        Tile::at(0, -576_000),
        Tile::at(i64::MAX, i64::MAX),
        Tile::at(i64::MIN, 0),
    ];
    let grid = OccupancyGrid::build(&tiles);
    for x in 0..32 {
        for y in 0..32 {
            assert!(grid.free_at(Pos::new(x, y)));
        }
    }
}

#[test]
fn the_grid_of_no_tiles_is_free() {
    let grid = OccupancyGrid::build(&Vec::new());
    assert!(grid.free_at(Pos::new(0, 0)));
    assert!(grid.free_at(Pos::new(31, 31)));
    assert!(!grid.free_at(Pos::new(32, 31)));
}
