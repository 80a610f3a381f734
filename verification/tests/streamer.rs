use rockquid::generator::spawn_row;
use rockquid::geometry::Vec3;
use rockquid::streamer::{MapStreamer, Row, Tile};

const MAP_HEIGHT: i64 = 1_024_000;
const TILE: i64 = 32_000;

fn slots(streamer: &MapStreamer, scrolled: i64) -> Vec<i64> {
    let mut slots: Vec<i64> = streamer
        .rows()
        .iter()
        .map(|row| (row.y_pos + scrolled).rem_euclid(MAP_HEIGHT))
        .collect();
    slots.sort();
    slots
}

fn home_slots() -> Vec<i64> {
    (0..32).map(|k| k * TILE).collect()
}

fn pending(streamer: &MapStreamer) -> usize {
    streamer.rows().iter().filter(|row| row.to_be_processed).count()
}

#[test]
fn the_map_starts_with_a_row_for_every_tile_side() {
    let streamer = MapStreamer::new();
    let rows = streamer.rows();
    assert_eq!(32, rows.len());
    for (i, row) in rows.iter().enumerate() {
        assert_eq!(
            Row { y_pos: 512_000 - i as i64 * TILE, to_be_processed: false },
            *row
        );
    }
    assert_eq!(None, streamer.pending_row());
}

#[test]
fn the_map_starts_with_both_side_walls() {
    let streamer = MapStreamer::new();
    let tiles = streamer.tiles();
    assert_eq!(64, tiles.len());
    for k in 0..32 {
        let y = (k as i64 - 16) * TILE;
        assert_eq!(Tile::at(-512_000, y), tiles[k]);
        assert_eq!(Tile::at(512_000, y), tiles[32 + k]);
    }
    assert_eq!(Vec3::new(-512_000, -512_000, 0), tiles[0].position);
    assert_eq!(Vec3::new(512_000, 480_000, 0), tiles[63].position);
}

#[test]
fn a_scroll_moves_rows_and_tiles_down_by_the_distance() {
    let mut streamer = MapStreamer::new();
    let before_rows = streamer.rows().clone();
    let before_tiles = streamer.tiles().clone();
    let expired = streamer.scroll(2_550);
    assert_eq!(vec![false; 64], expired);
    for (old, new) in before_rows.iter().zip(streamer.rows()) {
        assert_eq!(old.y_pos - 2_550, new.y_pos);
        assert!(!new.to_be_processed);
    }
    for (old, new) in before_tiles.iter().zip(streamer.tiles()) {
        assert_eq!(old.position.x, new.position.x);
        assert_eq!(old.position.y - 2_550, new.position.y);
    }
}

#[test]
fn a_row_on_the_bottom_edge_is_not_yet_recycled() {
    let mut streamer = MapStreamer::new();
    streamer.scroll(32_000);
    assert_eq!(-512_000, streamer.rows()[31].y_pos);
    assert_eq!(None, streamer.pending_row());
    streamer.scroll(1);
    assert_eq!(-512_001 + MAP_HEIGHT, streamer.rows()[31].y_pos);
    assert_eq!(Some(31), streamer.pending_row());
}

#[test]
fn a_row_below_the_bottom_edge_comes_back_one_map_height_higher() {
    let mut streamer = MapStreamer::new();
    streamer.scroll(32_000);
    streamer.scroll(32_000);
    let rows = streamer.rows();
    assert_eq!(Row { y_pos: 480_000, to_be_processed: true }, rows[31]);
    for i in 0..31 {
        assert_eq!(
            Row { y_pos: 512_000 - i as i64 * TILE - 64_000, to_be_processed: false },
            rows[i]
        );
    }
    assert_eq!(Some(31), streamer.pending_row());
}

#[test]
fn a_tile_two_sides_below_the_map_is_destroyed() {
    let mut streamer = MapStreamer::new();
    // The lowest wall tiles start on the bottom edge.
    streamer.scroll(32_000);
    let expired = streamer.scroll(32_000);
    assert_eq!(vec![false; 64], expired);
    assert_eq!(-576_000, streamer.tiles()[0].position.y);
    assert_eq!(2, streamer.generate_with(&vec![0; 32]));
    let expired = streamer.scroll(1);
    let mut expected = vec![false; 66];
    expected[0] = true;
    expected[32] = true;
    assert_eq!(expected, expired);
    let tiles = streamer.tiles();
    assert_eq!(64, tiles.len());
    assert_eq!(Tile::at(-512_000, -15 * TILE - 64_001), tiles[0]);
    assert_eq!(Tile::at(512_000, -15 * TILE - 64_001), tiles[31]);
    assert_eq!(Tile::at(-512_000, 479_999), tiles[62]);
    assert_eq!(Tile::at(512_000, 479_999), tiles[63]);
}

#[test]
fn the_waiting_row_gets_walls_and_the_obstacles_that_the_rolls_decide() {
    let mut streamer = MapStreamer::new();
    streamer.scroll(32_000);
    streamer.scroll(32_000);
    let mut rolls = vec![0; 32];
    rolls[3] = 99;
    rolls[4] = 19;
    rolls[5] = 18;
    rolls[31] = 99;
    let spawned = streamer.generate_with(&rolls);
    assert_eq!(5, spawned);
    assert_eq!(None, streamer.pending_row());
    assert_eq!(Row { y_pos: 480_000, to_be_processed: false }, streamer.rows()[31]);
    let tiles = streamer.tiles();
    assert_eq!(69, tiles.len());
    assert_eq!(
        vec![
            Tile::at(-512_000, 480_000),
            Tile::at(512_000, 480_000),
            Tile::at(-512_000 + 3 * TILE, 480_000),
            Tile::at(-512_000 + 4 * TILE, 480_000),
            Tile::at(-512_000 + 31 * TILE, 480_000),
        ],
        tiles[64..].to_vec()
    );
}

#[test]
fn without_a_waiting_row_nothing_is_generated() {
    let mut streamer = MapStreamer::new();
    let rows = streamer.rows().clone();
    let tiles = streamer.tiles().clone();
    assert_eq!(0, streamer.generate_with(&vec![99; 32]));
    assert_eq!(0, streamer.generate_row());
    assert_eq!(rows, *streamer.rows());
    assert_eq!(tiles, *streamer.tiles());
}

#[test]
fn obstacles_cluster_and_the_bonus_wears_off() {
    // After an obstacle the bar drops from 98 to 18, then rises by 20 with
    // every further obstacle of the cluster.
    let rolls = vec![99, 19, 39, 59, 79, 98, 99, 18, 98, 99, 19, 38, 19];
    let tiles = spawn_row(7, &rolls);
    let xs: Vec<i64> = tiles[2..].iter().map(|t| (t.position.x + 512_000) / TILE).collect();
    assert_eq!(vec![0, 1, 2, 3, 4, 6, 9, 10], xs);
    assert!(tiles.iter().all(|t| t.position.y == 7 && t.position.z == 0));
}

#[test]
fn a_roll_on_the_bar_makes_no_obstacle() {
    assert_eq!(2, spawn_row(0, &vec![98; 32]).len());
    assert_eq!(2, spawn_row(0, &vec![99, 18, 99, 18]).len() - 2);
    assert_eq!(34, spawn_row(0, &vec![99, 19, 39, 59, 79].repeat(7)).len());
}

#[test]
fn a_row_has_one_slot_for_each_of_the_first_rolls() {
    assert_eq!(
        vec![Tile::at(-512_000, -5), Tile::at(512_000, -5)],
        spawn_row(-5, &Vec::new())
    );
    assert_eq!(
        vec![Tile::at(-512_000, 1), Tile::at(512_000, 1), Tile::at(-480_000, 1)],
        spawn_row(1, &vec![0, 99])
    );
    // Rolls beyond the last slot decide nothing.
    let mut rolls = vec![0; 40];
    rolls[31] = 99;
    rolls[32] = 99;
    rolls[39] = 99;
    assert_eq!(
        vec![Tile::at(-512_000, 1), Tile::at(512_000, 1), Tile::at(480_000, 1)],
        spawn_row(1, &rolls)
    );
}

#[test]
fn rows_keep_their_slots_and_wait_one_at_a_time() {
    let mut streamer = MapStreamer::new();
    let home = slots(&streamer, 0);
    let expected: Vec<i64> = (0..32).map(|k| k * TILE).collect();
    assert_eq!(expected, home);
    let mut scrolled: i64 = 0;
    let steps: [u32; 6] = [2_550, 3_728, 32_000, 0, 1, 31_999];
    for tick in 0..4000 {
        let distance = steps[tick % steps.len()];
        streamer.scroll(distance);
        scrolled += distance as i64;
        assert_eq!(home, slots(&streamer, scrolled));
        assert!(pending(&streamer) <= 1);
        for row in streamer.rows() {
            assert!(-512_000 <= row.y_pos && row.y_pos <= 512_000);
        }
        for tile in streamer.tiles() {
            assert!(tile.position.y >= -576_000);
        }
        streamer.generate_with(&vec![0; 32]);
        assert_eq!(0, pending(&streamer));
        assert_eq!(home, slots(&streamer, scrolled));
    }
}

#[test]
fn fresh_rows_join_the_top_and_old_tiles_leave_at_the_bottom() {
    let mut streamer = MapStreamer::new();
    let mut live = 64;
    for _ in 0..200 {
        let expired = streamer.scroll(32_000);
        assert_eq!(live, expired.len());
        live -= expired.iter().filter(|gone| **gone).count();
        let spawned = streamer.generate_with(&vec![0; 32]);
        live += spawned;
        assert_eq!(live, streamer.tiles().len());
    }
    // Every row has been recycled by now: each holds its two walls, and
    // two more rows of walls ride below the map.
    assert_eq!(68, live);
}

#[test]
fn random_rows_hold_their_walls_and_no_more_than_every_slot() {
    let mut streamer = MapStreamer::new();
    let mut obstacles = 0;
    for _ in 0..3000 {
        streamer.scroll(32_000);
        if let Some(i) = streamer.pending_row() {
            let y = streamer.rows()[i].y_pos;
            let before = streamer.tiles().len();
            let spawned = streamer.generate_row();
            assert!(2 <= spawned && spawned <= 34);
            assert_eq!(None, streamer.pending_row());
            let tiles = streamer.tiles();
            assert_eq!(before + spawned, tiles.len());
            assert_eq!(Tile::at(-512_000, y), tiles[before]);
            assert_eq!(Tile::at(512_000, y), tiles[before + 1]);
            for tile in &tiles[before + 2..] {
                assert_eq!(y, tile.position.y);
                assert_eq!(0, (tile.position.x + 512_000) % TILE);
                assert!(-512_000 <= tile.position.x && tile.position.x <= 480_000);
            }
            obstacles += spawned - 2;
        }
    }
    // With a chance of one in a hundred for each of some 96000 slots, a
    // source that never rolls high would show here.
    assert!(obstacles > 0);
}

#[test]
fn a_long_step_recycles_every_row_that_it_takes_below_the_map() {
    let mut streamer = MapStreamer::new();
    let expired = streamer.scroll(96_000);
    // The lowest tile of either wall sinks below the drop line.
    let mut expected = vec![false; 64];
    expected[0] = true;
    expected[32] = true;
    assert_eq!(expected, expired);
    let rows = streamer.rows();
    for i in 0..30 {
        assert_eq!(
            Row { y_pos: 512_000 - i as i64 * TILE - 96_000, to_be_processed: false },
            rows[i]
        );
    }
    assert_eq!(Row { y_pos: 480_000, to_be_processed: true }, rows[30]);
    assert_eq!(Row { y_pos: 448_000, to_be_processed: true }, rows[31]);
    assert_eq!(2, pending(&streamer));
    assert_eq!(Some(30), streamer.pending_row());
}

#[test]
fn waiting_rows_get_their_tiles_one_at_a_time_from_the_first() {
    let mut streamer = MapStreamer::new();
    streamer.scroll(96_000);
    assert_eq!(62, streamer.tiles().len());
    assert_eq!(2, streamer.generate_with(&vec![0; 32]));
    assert_eq!(Some(31), streamer.pending_row());
    assert_eq!(Row { y_pos: 480_000, to_be_processed: false }, streamer.rows()[30]);
    assert_eq!(Row { y_pos: 448_000, to_be_processed: true }, streamer.rows()[31]);
    assert_eq!(Tile::at(-512_000, 480_000), streamer.tiles()[62]);
    assert_eq!(2, streamer.generate_with(&vec![0; 32]));
    assert_eq!(None, streamer.pending_row());
    assert_eq!(Tile::at(512_000, 448_000), streamer.tiles()[65]);
    assert_eq!(0, streamer.generate_with(&vec![0; 32]));
    assert_eq!(66, streamer.tiles().len());
}

#[test]
fn the_map_scrolls_on_while_a_row_waits() {
    let mut streamer = MapStreamer::new();
    streamer.scroll(32_001);
    assert_eq!(Some(31), streamer.pending_row());
    streamer.scroll(32_000);
    let rows = streamer.rows();
    assert_eq!(Row { y_pos: -512_001 + MAP_HEIGHT - 32_000, to_be_processed: true }, rows[31]);
    assert_eq!(Row { y_pos: -448_000 - 64_001 + MAP_HEIGHT, to_be_processed: true }, rows[30]);
    assert_eq!(Row { y_pos: -416_000 - 64_001, to_be_processed: false }, rows[29]);
    assert_eq!(2, pending(&streamer));
}

#[test]
fn a_scroll_by_a_whole_map_height_brings_the_rows_back() {
    let mut streamer = MapStreamer::new();
    let before = streamer.rows().clone();
    let expired = streamer.scroll(1_024_000);
    // Of either wall only the two topmost tiles stay above the drop line.
    let mut expected = vec![true; 64];
    for k in [30, 31, 62, 63] {
        expected[k] = false;
    }
    assert_eq!(expected, expired);
    assert_eq!(
        vec![
            Tile::at(-512_000, -576_000),
            Tile::at(-512_000, -544_000),
            Tile::at(512_000, -576_000),
            Tile::at(512_000, -544_000),
        ],
        *streamer.tiles()
    );
    let rows = streamer.rows();
    // The top row lands on the bottom edge, which is still on the map.
    assert_eq!(Row { y_pos: -512_000, to_be_processed: false }, rows[0]);
    for i in 1..32 {
        assert_eq!(Row { y_pos: before[i].y_pos, to_be_processed: true }, rows[i]);
    }
    assert_eq!(home_slots(), slots(&streamer, 1_024_000));
}

#[test]
fn a_scroll_by_nothing_changes_nothing() {
    let mut streamer = MapStreamer::new();
    let rows = streamer.rows().clone();
    let tiles = streamer.tiles().clone();
    assert_eq!(vec![false; 64], streamer.scroll(0));
    assert_eq!(rows, *streamer.rows());
    assert_eq!(tiles, *streamer.tiles());
}

#[test]
fn rows_keep_their_slots_under_steps_of_any_length() {
    let mut streamer = MapStreamer::new();
    let mut scrolled: i64 = 0;
    let steps: [u32; 7] = [1_024_000, 33_000, 500_000, 7, 96_000, 1_023_999, 64_001];
    for tick in 0..700 {
        let distance = steps[tick % steps.len()];
        let live = streamer.tiles().len();
        let expired = streamer.scroll(distance);
        assert_eq!(live, expired.len());
        scrolled += distance as i64;
        assert_eq!(home_slots(), slots(&streamer, scrolled));
        for row in streamer.rows() {
            assert!(-512_000 <= row.y_pos && row.y_pos <= 512_000);
        }
        for tile in streamer.tiles() {
            assert!(tile.position.y >= -576_000);
        }
        let waiting = pending(&streamer);
        streamer.generate_with(&vec![0; 32]);
        assert_eq!(waiting.saturating_sub(1), pending(&streamer));
    }
}
