//! Grid cells, world vectors, and the affine map between the two.
//!
//! Cell `(0, 0)` is the bottom-left tile of the playable map; the world
//! origin lies at the map's centre.

use vstd::prelude::*;
use crate::config::{MAP_HEIGHT_MPX, MAP_WIDTH_MPX, ROWS_PER_HEIGHT, TILES_PER_WIDTH, TILE_SIDE_MPX};
use crate::units::{div_round, round_quotient};

verus! {

/// A cell of the tile grid.
#[derive(Clone, Copy, Debug, PartialEq, Eq, Hash, PartialOrd, Ord, Structural)]
pub struct Pos {
    pub x: i32,
    pub y: i32,
}

/// A point or displacement in world space, in millipixels.
#[derive(Clone, Copy, Debug, PartialEq, Eq, Hash, Structural)]
pub struct Vec3 {
    pub x: i64,
    pub y: i64,
    pub z: i64,
}

/// A whole-pixel coordinate: a pixel of world space, or a pixel of an image
/// counted from the image's top-left corner.
#[derive(Clone, Copy, Debug, PartialEq, Eq, Hash, Structural)]
pub struct Vec2 {
    pub x: i64,
    pub y: i64,
}

impl Vec2 {
    /// The pixel in column `x` of row `y`.
    pub fn new(x: i64, y: i64) -> (v: Vec2)
        ensures
            v == (Vec2 { x, y }),
    {
        Vec2 { x, y }
    }
}

/// Column of the cell whose centre is nearest to world abscissa `wx`.
pub open spec fn grid_column(wx: int) -> int {
    round_quotient(wx, TILE_SIDE_MPX as int) + TILES_PER_WIDTH / 2
}

/// Row of the cell whose centre is nearest to world ordinate `wy`.
pub open spec fn grid_row(wy: int) -> int {
    round_quotient(wy, TILE_SIDE_MPX as int) + ROWS_PER_HEIGHT / 2
}

/// World abscissa of the centre of column `x`.
pub open spec fn world_x(x: int) -> int {
    x * TILE_SIDE_MPX - MAP_WIDTH_MPX / 2
}

/// World ordinate of the centre of row `y`.
pub open spec fn world_y(y: int) -> int {
    y * TILE_SIDE_MPX - MAP_HEIGHT_MPX / 2
}

/// Whether column `x` and row `y` name a cell of the playable map.
pub open spec fn cell_in_grid(x: int, y: int) -> bool {
    0 <= x < TILES_PER_WIDTH && 0 <= y < ROWS_PER_HEIGHT
}

impl Vec3 {
    /// The vector with the given components.
    pub fn new(x: i64, y: i64, z: i64) -> (v: Vec3)
        ensures
            v == (Vec3 { x, y, z }),
    {
        Vec3 { x, y, z }
    }

    /// Whether the cell nearest to this point has coordinates that fit a `Pos`.
    pub open spec fn within_reach(self) -> bool {
        &&& i32::MIN <= grid_column(self.x as int) <= i32::MAX
        &&& i32::MIN <= grid_row(self.y as int) <= i32::MAX
    }
}

impl Pos {
    /// The cell in column `x` of row `y`.
    pub fn new(x: i32, y: i32) -> (p: Pos)
        ensures
            p == (Pos { x, y }),
    {
        Pos { x, y }
    }

    /// Whether this cell lies on the playable map.
    pub open spec fn in_grid(self) -> bool {
        cell_in_grid(self.x as int, self.y as int)
    }

    /// Sum of the horizontal and vertical distance to `other`, in cells.
    pub open spec fn manhattan(self, other: Pos) -> int {
        (if self.x >= other.x { self.x - other.x } else { other.x - self.x })
            + (if self.y >= other.y { self.y - other.y } else { other.y - self.y })
    }

    /// The cell nearest to world point `v`, when its coordinates fit.
    pub open spec fn nearest(v: Vec3) -> Pos
        recommends
            v.within_reach(),
    {
        Pos { x: grid_column(v.x as int) as i32, y: grid_row(v.y as int) as i32 }
    }

    /// World position of this cell's centre.
    pub open spec fn centre(self) -> Vec3 {
        Vec3 { x: world_x(self.x as int) as i64, y: world_y(self.y as int) as i64, z: 0 }
    }

    /// Tells whether this cell lies on the playable map.
    pub fn is_in_grid(&self) -> (b: bool)
        ensures
            b == self.in_grid(),
    {
        0 <= self.x && self.x < TILES_PER_WIDTH && 0 <= self.y && self.y < ROWS_PER_HEIGHT
    }

    /// Tells whether this is the cell `other`.
    pub fn is_at(&self, other: &Pos) -> (b: bool)
        ensures
            b == (*self == *other),
    {
        self.x == other.x && self.y == other.y
    }

    /// Manhattan distance to `other`.
    pub fn distance(&self, other: &Pos) -> (d: u32)
        requires
            self.manhattan(*other) <= u32::MAX,
        ensures
            d == self.manhattan(*other),
    {
        let dx: i64 = if self.x >= other.x {
            self.x as i64 - other.x as i64
        } else {
            other.x as i64 - self.x as i64
        };
        let dy: i64 = if self.y >= other.y {
            self.y as i64 - other.y as i64
        } else {
            other.y as i64 - self.y as i64
        };
        (dx + dy) as u32
    }

    /// Component-wise sum.
    pub fn add(&self, other: &Pos) -> (p: Pos)
        requires
            i32::MIN <= self.x + other.x <= i32::MAX,
            i32::MIN <= self.y + other.y <= i32::MAX,
        ensures
            p.x == self.x + other.x,
            p.y == self.y + other.y,
    {
        Pos { x: self.x + other.x, y: self.y + other.y }
    }

    /// Component-wise difference.
    pub fn sub(&self, other: &Pos) -> (p: Pos)
        requires
            i32::MIN <= self.x - other.x <= i32::MAX,
            i32::MIN <= self.y - other.y <= i32::MAX,
        ensures
            p.x == self.x - other.x,
            p.y == self.y - other.y,
    {
        Pos { x: self.x - other.x, y: self.y - other.y }
    }

    /// The cell whose centre is nearest to `input`; halves round away from
    /// the map's centre.
    pub fn from_world_vec3(input: &Vec3) -> (p: Pos)
        requires
            input.within_reach(),
        ensures
            p == Pos::nearest(*input),
            p.x == grid_column(input.x as int),
            p.y == grid_row(input.y as int),
    {
        let cx: i128 = div_round(input.x as i128, TILE_SIDE_MPX as i128) + (TILES_PER_WIDTH / 2) as i128;
        let cy: i128 = div_round(input.y as i128, TILE_SIDE_MPX as i128) + (ROWS_PER_HEIGHT / 2) as i128;
        Pos { x: cx as i32, y: cy as i32 }
    }

    /// The cell of the playable map whose centre is nearest to `input`, or
    /// `None` when that cell lies off the map.
    pub fn locate(input: &Vec3) -> (r: Option<Pos>)
        ensures
            match r {
                Some(p) => p.in_grid() && p.x == grid_column(input.x as int) && p.y == grid_row(
                    input.y as int,
                ),
                None => !cell_in_grid(grid_column(input.x as int), grid_row(input.y as int)),
            },
    {
        let cx: i128 = div_round(input.x as i128, TILE_SIDE_MPX as i128) + (TILES_PER_WIDTH / 2) as i128;
        let cy: i128 = div_round(input.y as i128, TILE_SIDE_MPX as i128) + (ROWS_PER_HEIGHT / 2) as i128;
        if 0 <= cx && cx < TILES_PER_WIDTH as i128 && 0 <= cy && cy < ROWS_PER_HEIGHT as i128 {
            Some(Pos { x: cx as i32, y: cy as i32 })
        } else {
            None
        }
    }

    /// World position of this cell's centre.
    pub fn to_world_vec3(&self) -> (v: Vec3)
        ensures
            v == self.centre(),
            v.x == world_x(self.x as int),
            v.y == world_y(self.y as int),
            v.z == 0,
    {
        Vec3 {
            x: self.x as i64 * TILE_SIDE_MPX - MAP_WIDTH_MPX / 2,
            y: self.y as i64 * TILE_SIDE_MPX - MAP_HEIGHT_MPX / 2,
            z: 0,
        }
    }
}

/// Converting a cell to its world position and back gives the same cell.
pub proof fn lemma_grid_round_trip(p: Pos)
    ensures
        p.centre().within_reach(),
        Pos::nearest(p.centre()) == p,
        p.in_grid() ==> cell_in_grid(
            grid_column(p.centre().x as int),
            grid_row(p.centre().y as int),
        ),
{
    assert(grid_column(world_x(p.x as int)) == p.x);
    assert(grid_row(world_y(p.y as int)) == p.y);
}

} // verus!
