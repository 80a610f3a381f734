//! Where a new actor may enter the map.
//!
//! Actors enter at the top edge, in a lane picked at random. A lane is clear
//! when no tile of the topmost band stands within two tile sides of it.

use vstd::prelude::*;
use crate::config::{TILES_PER_WIDTH, TILE_SIDE_MPX, TOP_EDGE_Y};
use crate::random::draw;
use crate::streamer::Tile;

verus! {

/// Lanes lie this many tile sides to either side of the map's centre at most.
pub const LANE_REACH: i32 = 14;

/// Lowest ordinate of the band in which a tile can crowd an entry lane.
pub const ENTRY_BAND_Y: i64 = 448_000;

/// Distance along the x axis within which a tile crowds a lane.
pub const LANE_CLEARANCE: i64 = 64_000;

/// The entry band is the top two tile sides of the map, a tile crowds a lane
/// within two tile sides of it, and the lanes leave out the column of either
/// wall and the one next to it.
pub proof fn lemma_entry_constants_agree()
    ensures
        ENTRY_BAND_Y == TOP_EDGE_Y - 2 * TILE_SIDE_MPX,
        LANE_CLEARANCE == 2 * TILE_SIDE_MPX,
        LANE_REACH == (TILES_PER_WIDTH - 3) / 2,
{
}

/// Whether tile `t` stands in the way of an actor entering at abscissa `lane_x`.
pub open spec fn crowds_lane(t: Tile, lane_x: int) -> bool {
    &&& t.position.y >= ENTRY_BAND_Y
    &&& lane_x - LANE_CLEARANCE <= t.position.x <= lane_x + LANE_CLEARANCE
}

/// World abscissa of lane `lane`.
pub open spec fn lane_abscissa(lane: int) -> int {
    lane * TILE_SIDE_MPX
}

/// Whether no tile crowds the lane at abscissa `lane_x`.
pub open spec fn lane_clear(tiles: Seq<Tile>, lane_x: int) -> bool {
    forall|i: int| 0 <= i < tiles.len() ==> !crowds_lane(#[trigger] tiles[i], lane_x)
}

/// Where an actor enters that was dealt lane `lane`: at the lane's abscissa
/// when the lane is clear, nowhere when it is not.
pub open spec fn entry_of(tiles: Seq<Tile>, lane: int) -> Option<i64> {
    if lane_clear(tiles, lane_abscissa(lane)) {
        Some(lane_abscissa(lane) as i64)
    } else {
        None
    }
}

/// Tells whether an actor may enter at abscissa `lane_x`: whether no tile
/// crowds the lane.
pub fn lane_is_clear(tiles: &Vec<Tile>, lane_x: i64) -> (clear: bool)
    ensures
        clear == lane_clear(tiles@, lane_x as int),
{
    let mut i: usize = 0;
    while i < tiles.len()
        invariant
            i <= tiles@.len(),
            forall|j: int| 0 <= j < i ==> !crowds_lane(#[trigger] tiles@[j], lane_x as int),
        decreases tiles@.len() - i,
    {
        let t = tiles[i];
        let gap: i128 = t.position.x as i128 - lane_x as i128;
        if t.position.y >= ENTRY_BAND_Y && -(LANE_CLEARANCE as i128) <= gap && gap <= LANE_CLEARANCE as i128 {
            assert(crowds_lane(tiles@[i as int], lane_x as int));
            return false;
        }
        i = i + 1;
    }
    true
}

/// Answers where an actor enters that was dealt lane `lane`.
pub fn entry_at(tiles: &Vec<Tile>, lane: i32) -> (entry: Option<i64>)
    ensures
        entry == entry_of(tiles@, lane as int),
{
    let x: i64 = lane as i64 * TILE_SIDE_MPX;
    if lane_is_clear(tiles, x) {
        Some(x)
    } else {
        None
    }
}

/// Deals a lane at random and answers where the actor enters. Whatever
/// lane is dealt, it lies within reach of the map's centre.
pub fn pick_entry(tiles: &Vec<Tile>) -> (entry: Option<i64>)
    ensures
        exists|lane: int| -LANE_REACH <= lane < LANE_REACH && entry == #[trigger] entry_of(tiles@, lane),
{
    let lane: i32 = draw(-LANE_REACH, LANE_REACH);
    let entry = entry_at(tiles, lane);
    assert(entry == entry_of(tiles@, lane as int));
    entry
}

} // verus!
