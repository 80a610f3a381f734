//! Constants of one run: map extent, tile size, thresholds.

use vstd::prelude::*;

verus! {

/// Millipixels in one pixel.
pub const MILLI: i64 = 1000;

/// Millipixels in half a pixel.
pub const HALF_MILLI: i64 = 500;

/// Side of a square tile, in pixels.
pub const TILE_SIDE: i64 = 32;

/// Side of a square tile, in millipixels.
pub const TILE_SIDE_MPX: i64 = 32_000;

/// Width of the playable map, in millipixels.
pub const MAP_WIDTH_MPX: i64 = 1_024_000;

/// Height of the playable map, in millipixels.
pub const MAP_HEIGHT_MPX: i64 = 1_024_000;

/// Half the map's width: world abscissa of the right wall.
pub const RIGHT_WALL_X: i64 = 512_000;

/// World abscissa of the left wall.
pub const LEFT_WALL_X: i64 = -512_000;

/// World ordinate of the map's top edge.
pub const TOP_EDGE_Y: i64 = 512_000;

/// World ordinate of the map's bottom edge; a row below it is recycled.
pub const BOTTOM_EDGE_Y: i64 = -512_000;

/// A tile below this ordinate, two tile sides under the map, is destroyed.
pub const TILE_DROP_Y: i64 = -576_000;

/// Number of tile columns across the map.
pub const TILES_PER_WIDTH: i32 = 32;

/// Number of tile rows along the map's height.
pub const ROWS_PER_HEIGHT: i32 = 32;

/// Free cells kept around the playable area in a grid's storage.
pub const GRID_MARGIN: i32 = 2;

/// Baseline scroll speed, in pixels per second.
pub const SCROLL_SPEED: u32 = 150;

/// Row that advancing actors head for.
pub const GOAL_ROW: i32 = 2;

/// A pixel is solid when its alpha byte is above this value.
pub const OPAQUE_CUTOFF: u8 = 0;

/// A sprite counts as turned upside down when its rotation, in
/// milliradians, is above this value.
pub const HALF_TURN_THRESHOLD: i64 = 3140;

/// The constants agree with one another: the map is a whole number of
/// tiles wide and high, the world origin lies at its centre, and the goal
/// row is a row of the map.
pub proof fn lemma_constants_agree()
    ensures
        MILLI == 2 * HALF_MILLI,
        TILE_SIDE_MPX == TILE_SIDE * MILLI,
        TILE_SIDE_MPX % 2 == 0,
        MAP_WIDTH_MPX == TILES_PER_WIDTH * TILE_SIDE_MPX,
        MAP_HEIGHT_MPX == ROWS_PER_HEIGHT * TILE_SIDE_MPX,
        RIGHT_WALL_X == MAP_WIDTH_MPX / 2,
        LEFT_WALL_X == -RIGHT_WALL_X,
        TOP_EDGE_Y == MAP_HEIGHT_MPX / 2,
        BOTTOM_EDGE_Y == -TOP_EDGE_Y,
        TILE_DROP_Y == BOTTOM_EDGE_Y - 2 * TILE_SIDE_MPX,
        0 <= GOAL_ROW < ROWS_PER_HEIGHT,
{
}

} // verus!
