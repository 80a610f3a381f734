use rockquid::config::{ROWS_PER_HEIGHT, TILES_PER_WIDTH};
use rockquid::geometry::{Pos, Vec3};

#[test]
fn every_cell_survives_the_trip_to_world_space_and_back() {
    for x in 0..TILES_PER_WIDTH {
        for y in 0..ROWS_PER_HEIGHT {
            let p = Pos::new(x, y);
            let world = p.to_world_vec3();
            assert_eq!(p, Pos::from_world_vec3(&world));
            assert_eq!(Some(p), Pos::locate(&world));
        }
    }
}

#[test]
fn cell_centres_are_one_tile_apart_around_the_origin() {
    assert_eq!(Vec3::new(0, 0, 0), Pos::new(16, 16).to_world_vec3());
    assert_eq!(Vec3::new(-512_000, -512_000, 0), Pos::new(0, 0).to_world_vec3());
    assert_eq!(Vec3::new(480_000, 480_000, 0), Pos::new(31, 31).to_world_vec3());
    assert_eq!(Vec3::new(32_000, -64_000, 0), Pos::new(17, 14).to_world_vec3());
}

#[test]
fn world_points_go_to_the_nearest_cell() {
    assert_eq!(Pos::new(16, 16), Pos::from_world_vec3(&Vec3::new(0, 0, 0)));
    assert_eq!(Pos::new(16, 16), Pos::from_world_vec3(&Vec3::new(15_999, -15_999, 0)));
    assert_eq!(Pos::new(0, 0), Pos::from_world_vec3(&Vec3::new(-512_000, -512_000, 0)));
    assert_eq!(Pos::new(19, 13), Pos::from_world_vec3(&Vec3::new(100_000, -100_000, 7)));
}

#[test]
fn a_point_half_way_between_two_cells_goes_away_from_the_centre() {
    assert_eq!(Pos::new(17, 15), Pos::from_world_vec3(&Vec3::new(16_000, -16_000, 0)));
    assert_eq!(Pos::new(18, 14), Pos::from_world_vec3(&Vec3::new(48_000, -48_000, 0)));
}

#[test]
fn points_off_the_map_have_a_cell_but_no_place_on_the_grid() {
    let right_wall = Vec3::new(512_000, 0, 0);
    assert_eq!(Pos::new(32, 16), Pos::from_world_vec3(&right_wall));
    assert_eq!(None, Pos::locate(&right_wall));

    let below = Vec3::new(0, -600_000, 0);
    assert_eq!(Pos::new(16, -3), Pos::from_world_vec3(&below));
    assert_eq!(None, Pos::locate(&below));

    assert_eq!(None, Pos::locate(&Vec3::new(i64::MAX, 0, 0)));
    assert_eq!(None, Pos::locate(&Vec3::new(0, i64::MIN, 0)));
    assert_eq!(Some(Pos::new(31, 0)), Pos::locate(&Vec3::new(480_000, -512_000, 0)));
}

#[test]
fn cells_know_whether_they_lie_on_the_map() {
    assert!(Pos::new(0, 0).is_in_grid());
    assert!(Pos::new(31, 31).is_in_grid());
    assert!(!Pos::new(32, 0).is_in_grid());
    assert!(!Pos::new(0, 32).is_in_grid());
    assert!(!Pos::new(-1, 5).is_in_grid());
    assert!(!Pos::new(5, -1).is_in_grid());
}

#[test]
fn distance_is_manhattan() {
    assert_eq!(7, Pos::new(0, 0).distance(&Pos::new(3, 4)));
    assert_eq!(7, Pos::new(3, 4).distance(&Pos::new(0, 0)));
    assert_eq!(0, Pos::new(5, 5).distance(&Pos::new(5, 5)));
    assert_eq!(11, Pos::new(-2, 6).distance(&Pos::new(4, 1)));
}

#[test]
fn cells_add_and_subtract_by_component() {
    assert_eq!(Pos::new(4, -1), Pos::new(1, 2).add(&Pos::new(3, -3)));
    assert_eq!(Pos::new(-2, 5), Pos::new(1, 2).sub(&Pos::new(3, -3)));
    assert!(Pos::new(1, 2).is_at(&Pos::new(1, 2)));
    assert!(!Pos::new(1, 2).is_at(&Pos::new(2, 1)));
}
