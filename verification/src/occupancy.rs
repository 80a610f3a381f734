//! The occupancy grid: which cells of the playable map hold a wall tile.
//!
//! A grid is a snapshot derived from the live tiles; it carries no history.

use vstd::prelude::*;
use crate::config::{GRID_MARGIN, ROWS_PER_HEIGHT, TILES_PER_WIDTH};
use crate::geometry::{cell_in_grid, grid_column, grid_row, Pos};
use crate::streamer::Tile;

verus! {

/// Cells stored per row: the playable columns and the margin.
pub const GRID_STRIDE: usize = 34;

/// Rows stored: the playable rows and the margin.
pub const GRID_ROWS: usize = 34;

/// Free/blocked state of every cell, row by row from the bottom; `true` is
/// free. The storage keeps a margin of cells beyond the playable map that
/// always stay free.
pub struct OccupancyGrid {
    cells: Vec<bool>,
}

/// Whether column `x`, row `y` is a cell of the map that `blocked` leaves free.
pub open spec fn cell_free(blocked: Set<Pos>, x: int, y: int) -> bool {
    cell_in_grid(x, y) && !blocked.contains(Pos { x: x as i32, y: y as i32 })
}

/// Whether tile `t` sits on cell `p`.
pub open spec fn tile_on(t: Tile, p: Pos) -> bool {
    grid_column(t.position.x as int) == p.x && grid_row(t.position.y as int) == p.y
}

/// The cells of the playable map that hold at least one of `tiles`.
pub open spec fn blocked_cells(tiles: Seq<Tile>) -> Set<Pos> {
    Set::new(|p: Pos| p.in_grid() && exists|i: int| 0 <= i < tiles.len() && tile_on(#[trigger] tiles[i], p))
}

/// The storage is the playable map with its margin.
pub proof fn lemma_storage_covers_map()
    ensures
        GRID_STRIDE == TILES_PER_WIDTH + GRID_MARGIN,
        GRID_ROWS == ROWS_PER_HEIGHT + GRID_MARGIN,
{
}

/// Storage index of cell `p`.
spec fn slot(p: Pos) -> int {
    p.y * GRID_STRIDE + p.x
}

impl OccupancyGrid {
    #[verifier::type_invariant]
    spec fn well_formed(self) -> bool {
        self.cells@.len() == GRID_STRIDE * GRID_ROWS
    }

    /// The blocked cells of the playable map.
    pub closed spec fn view(self) -> Set<Pos> {
        Set::new(|p: Pos| p.in_grid() && !self.cells@[slot(p)])
    }

    /// Whether `p` is a cell of the playable map that is free.
    pub open spec fn is_free(self, p: Pos) -> bool {
        p.in_grid() && !self@.contains(p)
    }

    /// A grid with every cell free.
    pub fn new() -> (g: OccupancyGrid)
        ensures
            g@ == Set::<Pos>::empty(),
    {
        let mut cells: Vec<bool> = Vec::new();
        let mut i: usize = 0;
        while i < GRID_STRIDE * GRID_ROWS
            invariant
                i <= GRID_STRIDE * GRID_ROWS,
                cells@.len() == i,
                forall|k: int| 0 <= k < i ==> cells@[k],
            decreases GRID_STRIDE * GRID_ROWS - i,
        {
            cells.push(true);
            i = i + 1;
        }
        let g = OccupancyGrid { cells };
        assert(g@ =~= Set::<Pos>::empty());
        g
    }

    /// Marks cell `p` blocked; a cell off the playable map is dropped.
    pub fn block(&mut self, p: Pos)
        ensures
            final(self)@ == if p.in_grid() {
                old(self)@.insert(p)
            } else {
                old(self)@
            },
    {
        proof {
            use_type_invariant(&*self);
        }
        if p.is_in_grid() {
            let i: usize = p.y as usize * GRID_STRIDE + p.x as usize;
            self.cells[i] = false;
            assert forall|q: Pos| q.in_grid() && q != p implies slot(q) != slot(p) by {}
            assert(self@ =~= old(self)@.insert(p));
        }
    }

    /// Tells whether `p` is a free cell of the playable map; a cell off the
    /// map is never free.
    pub fn free_at(&self, p: Pos) -> (b: bool)
        ensures
            b == self.is_free(p),
    {
        proof {
            use_type_invariant(self);
        }
        if p.is_in_grid() {
            let i: usize = p.y as usize * GRID_STRIDE + p.x as usize;
            self.cells[i]
        } else {
            false
        }
    }

    /// The grid of the given tiles: every cell free but those that a tile
    /// sits on. Tiles off the playable map are dropped.
    pub fn build(tiles: &Vec<Tile>) -> (g: OccupancyGrid)
        ensures
            g@ == blocked_cells(tiles@),
    {
        let mut g = OccupancyGrid::new();
        let mut i: usize = 0;
        while i < tiles.len()
            invariant
                i <= tiles.len(),
                g@ == blocked_cells(tiles@.take(i as int)),
            decreases tiles.len() - i,
        {
            let ghost before = g@;
            match Pos::locate(&tiles[i].position) {
                Some(p) => {
                    g.block(p);
                },
                None => {},
            }
            proof {
                let prev = tiles@.take(i as int);
                let next = tiles@.take(i + 1);
                assert(next =~= prev.push(tiles@[i as int]));
                assert forall|q: Pos| g@.contains(q) <==> blocked_cells(next).contains(q) by {
                    if q.in_grid() && exists|k: int| 0 <= k < next.len() && tile_on(#[trigger] next[k], q) {
                        let k = choose|k: int| 0 <= k < next.len() && tile_on(#[trigger] next[k], q);
                        if k < i {
                            assert(tile_on(prev[k], q));
                        }
                    }
                    if before.contains(q) {
                        let k = choose|k: int| 0 <= k < prev.len() && tile_on(#[trigger] prev[k], q);
                        assert(tile_on(next[k], q));
                    }
                    if tile_on(tiles@[i as int], q) {
                        assert(tile_on(next[i as int], q));
                    }
                }
                assert(g@ =~= blocked_cells(next));
            }
            i = i + 1;
        }
        assert(tiles@.take(tiles.len() as int) =~= tiles@);
        g
    }
}

} // verus!
