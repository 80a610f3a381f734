//! How an actor uses up the waypoints of its path.
//!
//! Waypoints are cells of the grid as it stood when the path was planned.
//! The map has scrolled since, so the world position of a waypoint is the
//! centre of its cell less the distance scrolled in the meantime.

use vstd::prelude::*;
use crate::config::MILLI;
use crate::geometry::{world_x, world_y, Pos, Vec3};
use crate::units::{div_round, round_quotient};

verus! {

/// An actor has reached a waypoint when it stands within this distance of
/// it on every axis, in millipixels.
pub const ARRIVAL_SLACK: i64 = 5_000;

/// A world coordinate rounded to whole pixels, in millipixels.
pub open spec fn whole_pixels(v: int) -> int {
    round_quotient(v, MILLI as int) * MILLI
}

/// World position of waypoint `cell` once the map has scrolled by
/// `scrolled`: the centre of the cell, which lies in the plane `z = 0`,
/// less the scroll on each axis.
pub open spec fn waypoint_target(cell: Pos, scrolled: Vec3) -> (int, int, int) {
    (world_x(cell.x as int) - scrolled.x, world_y(cell.y as int) - scrolled.y, 0 - scrolled.z)
}

/// Whether an actor at `position`, rounded to whole pixels, stands within
/// the arrival slack of `target` on all three axes.
pub open spec fn has_arrived(target: (int, int, int), position: Vec3) -> bool {
    &&& -ARRIVAL_SLACK <= target.0 - whole_pixels(position.x as int) <= ARRIVAL_SLACK
    &&& -ARRIVAL_SLACK <= target.1 - whole_pixels(position.y as int) <= ARRIVAL_SLACK
    &&& -ARRIVAL_SLACK <= target.2 - whole_pixels(position.z as int) <= ARRIVAL_SLACK
}

/// Tells whether `v`, rounded to whole pixels, lies within the arrival slack
/// of `target`.
fn near(target: i128, v: i64) -> (b: bool)
    requires
        -0x4000_0000_0000_0000_0000 <= target <= 0x4000_0000_0000_0000_0000,
    ensures
        b == (-ARRIVAL_SLACK <= target - whole_pixels(v as int) <= ARRIVAL_SLACK),
{
    let rounded: i128 = div_round(v as i128, MILLI as i128) * MILLI as i128;
    let gap: i128 = target - rounded;
    -(ARRIVAL_SLACK as i128) <= gap && gap <= ARRIVAL_SLACK as i128
}

/// World position of waypoint `cell` once the map has scrolled by
/// `scrolled`, in millipixels.
pub fn waypoint_position(cell: &Pos, scrolled: &Vec3) -> (target: (i128, i128, i128))
    ensures
        target.0 == waypoint_target(*cell, *scrolled).0,
        target.1 == waypoint_target(*cell, *scrolled).1,
        target.2 == waypoint_target(*cell, *scrolled).2,
{
    let centre: Vec3 = cell.to_world_vec3();
    (
        centre.x as i128 - scrolled.x as i128,
        centre.y as i128 - scrolled.y as i128,
        centre.z as i128 - scrolled.z as i128,
    )
}

/// Names the point that an actor heads for, and drops the first waypoint of
/// its path once the actor has reached it on every axis. The point is the
/// world position of the first waypoint as the path stood before the call;
/// an actor without waypoints has none and holds its position.
pub fn advance_waypoint(path: &mut Vec<Pos>, position: &Vec3, scrolled: &Vec3) -> (target: Option<
    (i128, i128, i128),
>)
    ensures
        old(path)@.len() == 0 ==> target is None && final(path)@ == old(path)@,
        old(path)@.len() > 0 ==> target == Some(
            (
                waypoint_target(old(path)@[0], *scrolled).0 as i128,
                waypoint_target(old(path)@[0], *scrolled).1 as i128,
                waypoint_target(old(path)@[0], *scrolled).2 as i128,
            ),
        ) && final(path)@ == if has_arrived(waypoint_target(old(path)@[0], *scrolled), *position) {
            old(path)@.subrange(1, old(path)@.len() as int)
        } else {
            old(path)@
        },
{
    if path.len() == 0 {
        return None;
    }
    let target: (i128, i128, i128) = waypoint_position(&path[0], scrolled);
    if near(target.0, position.x) && near(target.1, position.y) && near(target.2, position.z) {
        let _ = path.remove(0);
    }
    Some(target)
}

} // verus!
