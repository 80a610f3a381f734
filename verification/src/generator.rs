//! The tiles of a fresh row.
//!
//! A row gets a wall tile at either side of the map and obstacles in
//! between. Every interior slot is decided by a roll from 0 to 99. A slot
//! that follows an empty one holds an obstacle on a roll of 99 only; once
//! an obstacle has appeared the next slot is far more likely to hold one
//! too, and that bonus wears off slot by slot, so obstacles come in short
//! clusters.

use vstd::prelude::*;
use crate::config::{LEFT_WALL_X, RIGHT_WALL_X, TILES_PER_WIDTH, TILE_SIDE_MPX};
use crate::geometry::Vec3;
use crate::streamer::Tile;

verus! {

/// Interior slots of a row.
pub const ROW_SLOTS: usize = 32;

/// Rolls run from 0 up to, but not including, this value.
pub const ROLL_LIMIT: u32 = 100;

/// A roll above this value, less the bonus, makes an obstacle.
pub const ROLL_BAR: u32 = 98;

/// Bonus that the first obstacle of a cluster gives the next slot.
pub const CLUSTER_BONUS: u32 = 80;

/// What the bonus loses with every further obstacle of the cluster.
pub const CLUSTER_DECAY: u32 = 20;

/// A row has an interior slot for every column of the map, and the bonus
/// wears off in whole steps.
pub proof fn lemma_generator_constants_agree()
    ensures
        ROW_SLOTS == TILES_PER_WIDTH,
        CLUSTER_BONUS % CLUSTER_DECAY == 0,
        CLUSTER_BONUS <= ROLL_BAR < ROLL_LIMIT,
{
}

/// The bonus in effect for slot `n`, after the rolls of the slots before it.
pub open spec fn bonus_before(rolls: Seq<u32>, n: nat) -> int
    decreases n,
{
    if n == 0 {
        0
    } else {
        let bonus = bonus_before(rolls, (n - 1) as nat);
        if rolls[n - 1] > ROLL_BAR - bonus {
            if bonus == 0 {
                CLUSTER_BONUS as int
            } else {
                bonus - CLUSTER_DECAY
            }
        } else {
            0
        }
    }
}

/// Whether slot `k` holds an obstacle.
pub open spec fn obstacle_at(rolls: Seq<u32>, k: int) -> bool
    recommends
        0 <= k < rolls.len(),
{
    rolls[k] > ROLL_BAR - bonus_before(rolls, k as nat)
}

/// World abscissa of interior slot `k`.
pub open spec fn slot_x(k: int) -> int {
    LEFT_WALL_X + k * TILE_SIDE_MPX
}

/// The obstacles in the first `n` interior slots of a row at ordinate `y`.
pub open spec fn obstacles_upto(y: i64, rolls: Seq<u32>, n: nat) -> Seq<Tile>
    decreases n,
{
    if n == 0 {
        Seq::empty()
    } else if obstacle_at(rolls, n - 1) {
        obstacles_upto(y, rolls, (n - 1) as nat).push(
            Tile { position: Vec3 { x: slot_x(n - 1) as i64, y, z: 0 } },
        )
    } else {
        obstacles_upto(y, rolls, (n - 1) as nat)
    }
}

/// How many interior slots `rolls` decide on: one roll per slot, and a slot
/// without a roll stays empty.
pub open spec fn slots_rolled(rolls: Seq<u32>) -> nat {
    if rolls.len() < ROW_SLOTS {
        rolls.len()
    } else {
        ROW_SLOTS as nat
    }
}

/// The tiles of a fresh row at ordinate `y`: the left wall, the right
/// wall, then the obstacles from left to right.
pub open spec fn row_tiles(y: i64, rolls: Seq<u32>) -> Seq<Tile> {
    seq![
        Tile { position: Vec3 { x: LEFT_WALL_X, y, z: 0 } },
        Tile { position: Vec3 { x: RIGHT_WALL_X, y, z: 0 } },
    ] + obstacles_upto(y, rolls, slots_rolled(rolls))
}

/// The bonus is one of 0, 20, 40, 60 and 80.
pub proof fn lemma_bonus_bounded(rolls: Seq<u32>, n: nat)
    ensures
        0 <= bonus_before(rolls, n) <= CLUSTER_BONUS,
        bonus_before(rolls, n) % (CLUSTER_DECAY as int) == 0,
    decreases n,
{
    if n > 0 {
        lemma_bonus_bounded(rolls, (n - 1) as nat);
    }
}

/// Every obstacle of a row lies at the row's ordinate.
proof fn lemma_obstacles_on_row(y: i64, rolls: Seq<u32>, n: nat)
    ensures
        forall|k: int|
            0 <= k < obstacles_upto(y, rolls, n).len() ==> (#[trigger] obstacles_upto(
                y,
                rolls,
                n,
            )[k]).position.y == y,
        obstacles_upto(y, rolls, n).len() <= n,
    decreases n,
{
    if n > 0 {
        lemma_obstacles_on_row(y, rolls, (n - 1) as nat);
    }
}

/// Every tile of a fresh row lies at the row's ordinate, and a row has at
/// least its two walls.
pub proof fn lemma_row_tiles_on_row(y: i64, rolls: Seq<u32>)
    ensures
        forall|k: int|
            0 <= k < row_tiles(y, rolls).len() ==> (#[trigger] row_tiles(y, rolls)[k]).position.y
                == y,
        2 <= row_tiles(y, rolls).len() <= 2 + ROW_SLOTS,
{
    lemma_obstacles_on_row(y, rolls, slots_rolled(rolls));
}

/// Decides on the tiles of a fresh row at ordinate `y` from one roll per
/// interior slot.
pub fn spawn_row(y: i64, rolls: &Vec<u32>) -> (tiles: Vec<Tile>)
    ensures
        tiles@ == row_tiles(y, rolls@),
{
    let mut tiles: Vec<Tile> = Vec::new();
    tiles.push(Tile { position: Vec3 { x: LEFT_WALL_X, y, z: 0 } });
    tiles.push(Tile { position: Vec3 { x: RIGHT_WALL_X, y, z: 0 } });
    let ghost walls = tiles@;
    let n: usize = if rolls.len() < ROW_SLOTS {
        rolls.len()
    } else {
        ROW_SLOTS
    };
    let mut bonus: u32 = 0;
    let mut k: usize = 0;
    while k < n
        invariant
            k <= n,
            n == slots_rolled(rolls@),
            n <= rolls@.len(),
            bonus == bonus_before(rolls@, k as nat),
            bonus <= CLUSTER_BONUS,
            tiles@ == walls + obstacles_upto(y, rolls@, k as nat),
        decreases n - k,
    {
        proof {
            lemma_bonus_bounded(rolls@, k as nat);
        }
        if rolls[k] > ROLL_BAR - bonus {
            bonus = if bonus == 0 {
                CLUSTER_BONUS
            } else {
                bonus - CLUSTER_DECAY
            };
            let x: i64 = LEFT_WALL_X + k as i64 * TILE_SIDE_MPX;
            tiles.push(Tile { position: Vec3 { x, y, z: 0 } });
            assert(tiles@ =~= walls + obstacles_upto(y, rolls@, (k + 1) as nat));
        } else {
            bonus = 0;
        }
        proof {
            lemma_bonus_bounded(rolls@, (k + 1) as nat);
        }
        k = k + 1;
    }
    assert(walls =~= seq![
        Tile { position: Vec3 { x: LEFT_WALL_X, y, z: 0 } },
        Tile { position: Vec3 { x: RIGHT_WALL_X, y, z: 0 } },
    ]);
    tiles
}

} // verus!
