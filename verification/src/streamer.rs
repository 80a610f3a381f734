//! The scrolling map: a ring of rows and the wall tiles that ride on them.
//!
//! Rows and tiles drift down as the map scrolls. A row that leaves the map
//! at the bottom comes back one map height higher and waits to be given new
//! tiles; a tile that has sunk two tile sides below the map is destroyed.

use vstd::prelude::*;
use crate::config::{
    BOTTOM_EDGE_Y, LEFT_WALL_X, MAP_HEIGHT_MPX, RIGHT_WALL_X, ROWS_PER_HEIGHT, TILE_DROP_Y, TILE_SIDE_MPX,
    TOP_EDGE_Y,
};
use crate::generator::{row_tiles, spawn_row, ROLL_LIMIT, ROW_SLOTS};
use crate::geometry::Vec3;
use crate::random::draw;

verus! {

/// A static wall tile, known by the world position of its centre.
#[derive(Clone, Copy, Debug, PartialEq, Eq, Structural)]
pub struct Tile {
    pub position: Vec3,
}

/// A horizontal band of the map.
#[derive(Clone, Copy, Debug, PartialEq, Eq, Structural)]
pub struct Row {
    /// World ordinate of the band, in millipixels.
    pub y_pos: i64,
    /// Set while the row waits for new tiles.
    pub to_be_processed: bool,
}

/// The rows and tiles of the map, and how far it has scrolled.
pub struct MapStreamer {
    rows: Vec<Row>,
    tiles: Vec<Tile>,
    phase: i64,
}

/// The mathematical content of a `MapStreamer`.
pub struct StreamerView {
    pub rows: Seq<Row>,
    pub tiles: Seq<Tile>,
    /// Distance scrolled so far, modulo the map height.
    pub phase: int,
}

/// Ordinate at which row `i` starts out: the rows hang one tile side apart
/// from the top of the map down.
pub open spec fn slot_home(i: int) -> int {
    TOP_EDGE_Y - i * TILE_SIDE_MPX
}

/// Row `r` after the map has scrolled down by `d`.
pub open spec fn row_after(r: Row, d: int) -> Row {
    if r.y_pos - d < BOTTOM_EDGE_Y {
        Row { y_pos: (r.y_pos - d + MAP_HEIGHT_MPX) as i64, to_be_processed: true }
    } else {
        Row { y_pos: (r.y_pos - d) as i64, to_be_processed: r.to_be_processed }
    }
}

/// Tile `t` after the map has scrolled down by `d`.
pub open spec fn tile_after(t: Tile, d: int) -> Tile {
    Tile { position: Vec3 { x: t.position.x, y: (t.position.y - d) as i64, z: t.position.z } }
}

/// Whether a tile has sunk so far below the map that it is destroyed.
pub open spec fn tile_gone(t: Tile) -> bool {
    t.position.y < TILE_DROP_Y
}

/// The first `n` of `tiles` after a scroll by `d`, without those destroyed.
pub open spec fn surviving_upto(tiles: Seq<Tile>, d: int, n: nat) -> Seq<Tile>
    decreases n,
{
    if n == 0 {
        Seq::empty()
    } else if tile_gone(tile_after(tiles[n - 1], d)) {
        surviving_upto(tiles, d, (n - 1) as nat)
    } else {
        surviving_upto(tiles, d, (n - 1) as nat).push(tile_after(tiles[n - 1], d))
    }
}

/// `tiles` after a scroll by `d`, without those destroyed, in their old order.
pub open spec fn surviving(tiles: Seq<Tile>, d: int) -> Seq<Tile> {
    surviving_upto(tiles, d, tiles.len())
}

impl StreamerView {
    /// Whether no row waits for new tiles.
    pub open spec fn none_pending(self) -> bool {
        forall|i: int| 0 <= i < self.rows.len() ==> !(#[trigger] self.rows[i]).to_be_processed
    }

    /// Whether at most one row waits for new tiles.
    pub open spec fn at_most_one_pending(self) -> bool {
        forall|i: int, j: int|
            0 <= i < self.rows.len() && 0 <= j < self.rows.len() && (
            #[trigger] self.rows[i]).to_be_processed && (#[trigger] self.rows[j]).to_be_processed
                ==> i == j
    }

    /// Whether row `i` waits for new tiles and no row before it does.
    pub open spec fn waits_first(self, i: int) -> bool {
        &&& 0 <= i < self.rows.len()
        &&& self.rows[i].to_be_processed
        &&& forall|j: int| 0 <= j < i ==> !(#[trigger] self.rows[j]).to_be_processed
    }

    /// Index of the first row that waits for new tiles, if one does.
    pub open spec fn pending(self) -> Option<int> {
        if exists|i: int| #[trigger] self.waits_first(i) {
            Some(choose|i: int| #[trigger] self.waits_first(i))
        } else {
            None
        }
    }

    /// Whether row `i` sits in its own slot of the ring: in the frame that
    /// scrolls with the map, its ordinate is the one it started from, up to
    /// whole map heights.
    pub open spec fn in_slot(self, i: int) -> bool {
        (self.rows[i].y_pos + self.phase - slot_home(i)) % (MAP_HEIGHT_MPX as int) == 0
    }

    /// The invariant of the ring: every row lies on the map and in its own
    /// slot, and no tile has sunk past the point of destruction.
    pub open spec fn ring_ok(self) -> bool {
        &&& self.rows.len() == ROWS_PER_HEIGHT
        &&& 0 <= self.phase < MAP_HEIGHT_MPX
        &&& forall|i: int|
            0 <= i < self.rows.len() ==> BOTTOM_EDGE_Y <= (#[trigger] self.rows[i]).y_pos
                <= TOP_EDGE_Y
        &&& forall|i: int| 0 <= i < self.rows.len() ==> #[trigger] self.in_slot(i)
        &&& forall|k: int|
            0 <= k < self.tiles.len() ==> !tile_gone(#[trigger] self.tiles[k])
                && self.tiles[k].position.y <= TOP_EDGE_Y
    }

    /// The map after it has scrolled down by `d`.
    pub open spec fn scrolled(self, d: int) -> StreamerView {
        StreamerView {
            rows: Seq::new(self.rows.len(), |i: int| row_after(self.rows[i], d)),
            tiles: surviving(self.tiles, d),
            phase: (self.phase + d) % (MAP_HEIGHT_MPX as int),
        }
    }

    /// The map after the first row that waits, if any, has been given the
    /// tiles that `rolls` decide on.
    pub open spec fn regenerated(self, rolls: Seq<u32>) -> StreamerView {
        match self.pending() {
            Some(i) => StreamerView {
                rows: self.rows.update(
                    i,
                    Row { y_pos: self.rows[i].y_pos, to_be_processed: false },
                ),
                tiles: self.tiles + row_tiles(self.rows[i].y_pos, rolls),
                phase: self.phase,
            },
            None => self,
        }
    }
}

/// The map at the start: no row waits, and both side walls stand.
pub open spec fn initial_map() -> StreamerView {
    StreamerView {
        rows: Seq::new(
            ROWS_PER_HEIGHT as nat,
            |i: int| Row { y_pos: slot_home(i) as i64, to_be_processed: false },
        ),
        tiles: Seq::new(
            (2 * ROWS_PER_HEIGHT) as nat,
            |k: int|
                Tile {
                    position: Vec3 {
                        x: if k < ROWS_PER_HEIGHT {
                            LEFT_WALL_X
                        } else {
                            RIGHT_WALL_X
                        },
                        y: ((k % (ROWS_PER_HEIGHT as int) - ROWS_PER_HEIGHT / 2) * TILE_SIDE_MPX) as i64,
                        z: 0,
                    },
                },
        ),
        phase: 0,
    }
}

/// A scroll keeps the destroyed tiles out and the others on the map.
proof fn lemma_surviving(tiles: Seq<Tile>, d: int, n: nat)
    requires
        n <= tiles.len(),
        0 <= d <= MAP_HEIGHT_MPX,
        forall|k: int| 0 <= k < tiles.len() ==> (#[trigger] tiles[k]).position.y <= TOP_EDGE_Y && !tile_gone(tiles[k]),
    ensures
        forall|k: int|
            0 <= k < surviving_upto(tiles, d, n).len() ==> !tile_gone(
                #[trigger] surviving_upto(tiles, d, n)[k],
            ) && surviving_upto(tiles, d, n)[k].position.y <= TOP_EDGE_Y,
    decreases n,
{
    if n > 0 {
        lemma_surviving(tiles, d, (n - 1) as nat);
        let before = surviving_upto(tiles, d, (n - 1) as nat);
        let now = surviving_upto(tiles, d, n);
        let moved = tile_after(tiles[n - 1], d);
        assert(tiles[n - 1].position.y <= TOP_EDGE_Y && !tile_gone(tiles[n - 1]));
        assert forall|k: int| 0 <= k < now.len() implies !tile_gone(#[trigger] now[k])
            && now[k].position.y <= TOP_EDGE_Y by {
            if k < before.len() {
                assert(now[k] == before[k]);
            } else {
                assert(now[k] == moved);
            }
        }
    }
}

/// The ring's invariant holds at the start.
pub proof fn lemma_initial_ring()
    ensures
        initial_map().ring_ok(),
        initial_map().none_pending(),
{
    let m = initial_map();
    assert forall|i: int| 0 <= i < m.rows.len() implies #[trigger] m.in_slot(i) by {}
}

/// Row recycling: a scroll by at most one map height keeps every row on
/// the map and in its own slot of the ring. When the scroll is by at most one
/// tile side and begins while no row waits for tiles, it leaves at most one
/// row waiting.
pub proof fn lemma_scroll_keeps_ring(m: StreamerView, d: int)
    requires
        m.ring_ok(),
        0 <= d <= MAP_HEIGHT_MPX,
    ensures
        m.scrolled(d).ring_ok(),
        forall|i: int| 0 <= i < m.rows.len() ==> #[trigger] m.scrolled(d).in_slot(i),
        m.none_pending() && d <= TILE_SIDE_MPX ==> m.scrolled(d).at_most_one_pending(),
{
    let s = m.scrolled(d);
    assert forall|i: int| 0 <= i < s.rows.len() implies #[trigger] s.in_slot(i) by {
        assert(m.in_slot(i));
    }
    if m.none_pending() && d <= TILE_SIDE_MPX {
        assert forall|i: int, j: int|
            0 <= i < s.rows.len() && 0 <= j < s.rows.len() && (#[trigger] s.rows[i]).to_be_processed
                && (#[trigger] s.rows[j]).to_be_processed implies i == j by {
            assert(m.in_slot(i));
            assert(m.in_slot(j));
            assert(!m.rows[i].to_be_processed);
            assert(!m.rows[j].to_be_processed);
        }
    }
    lemma_surviving(m.tiles, d, m.tiles.len());
}

/// The first row that waits is the only row that waits first.
pub proof fn lemma_pending_is_first(m: StreamerView, i: int)
    requires
        m.waits_first(i),
    ensures
        m.pending() == Some(i),
{
    let k = choose|k: int| #[trigger] m.waits_first(k);
    if k < i {
        assert(!m.rows[k].to_be_processed);
    }
    if i < k {
        assert(!m.rows[i].to_be_processed);
    }
}

/// Giving the first waiting row its tiles keeps the ring's invariant; when
/// it was the only row that waited, no row waits afterwards.
pub proof fn lemma_regenerate_keeps_ring(m: StreamerView, rolls: Seq<u32>)
    requires
        m.ring_ok(),
    ensures
        m.regenerated(rolls).ring_ok(),
        m.at_most_one_pending() ==> m.regenerated(rolls).none_pending(),
{
    let g = m.regenerated(rolls);
    match m.pending() {
        Some(i) => {
            assert(m.waits_first(i));
            assert forall|j: int| 0 <= j < g.rows.len() implies #[trigger] g.in_slot(j) by {
                assert(m.in_slot(j));
            }
            if m.at_most_one_pending() {
                assert forall|j: int| 0 <= j < g.rows.len() implies !(#[trigger] g.rows[j]).to_be_processed by {
                    if j != i && m.rows[j].to_be_processed {
                        assert(m.rows[i].to_be_processed);
                    }
                }
            }
            crate::generator::lemma_row_tiles_on_row(m.rows[i].y_pos, rolls);
        },
        None => {
            assert forall|j: int| 0 <= j < g.rows.len() implies !(#[trigger] g.rows[j]).to_be_processed by {
                if m.rows[j].to_be_processed {
                    lemma_some_row_waits_first(m, j);
                }
            }
        },
    }
}

/// When a row waits, some row waits first.
proof fn lemma_some_row_waits_first(m: StreamerView, j: int)
    requires
        0 <= j < m.rows.len(),
        m.rows[j].to_be_processed,
    ensures
        exists|i: int| #[trigger] m.waits_first(i),
    decreases j,
{
    if exists|k: int| 0 <= k < j && (#[trigger] m.rows[k]).to_be_processed {
        let k = choose|k: int| 0 <= k < j && (#[trigger] m.rows[k]).to_be_processed;
        lemma_some_row_waits_first(m, k);
    } else {
        assert(m.waits_first(j));
    }
}

impl MapStreamer {
    #[verifier::type_invariant]
    spec fn well_formed(self) -> bool {
        self@.ring_ok()
    }

    pub closed spec fn view(self) -> StreamerView {
        StreamerView { rows: self.rows@, tiles: self.tiles@, phase: self.phase as int }
    }

    /// Sets the map up: one row per tile side from the top edge down, none
    /// of them waiting, and a wall tile at either side of every row.
    pub fn new() -> (s: MapStreamer)
        ensures
            s@ == initial_map(),
            s@.ring_ok(),
    {
        let mut rows: Vec<Row> = Vec::new();
        let mut i: i64 = 0;
        while i < ROWS_PER_HEIGHT as i64
            invariant
                0 <= i <= ROWS_PER_HEIGHT,
                rows@.len() == i,
                forall|j: int|
                    0 <= j < i ==> #[trigger] rows@[j] == (Row {
                        y_pos: slot_home(j) as i64,
                        to_be_processed: false,
                    }),
            decreases ROWS_PER_HEIGHT - i,
        {
            rows.push(Row { y_pos: TOP_EDGE_Y - i * TILE_SIDE_MPX, to_be_processed: false });
            i = i + 1;
        }
        let mut tiles: Vec<Tile> = Vec::new();
        let mut k: i64 = 0;
        while k < 2 * ROWS_PER_HEIGHT as i64
            invariant
                0 <= k <= 2 * ROWS_PER_HEIGHT,
                tiles@.len() == k,
                forall|j: int| 0 <= j < k ==> #[trigger] tiles@[j] == initial_map().tiles[j],
            decreases 2 * ROWS_PER_HEIGHT - k,
        {
            let x: i64 = if k < ROWS_PER_HEIGHT as i64 {
                LEFT_WALL_X
            } else {
                RIGHT_WALL_X
            };
            let step: i64 = if k < ROWS_PER_HEIGHT as i64 {
                k
            } else {
                k - ROWS_PER_HEIGHT as i64
            };
            let y: i64 = (step - 16) * TILE_SIDE_MPX;
            tiles.push(Tile { position: Vec3 { x, y, z: 0 } });
            k = k + 1;
        }
        proof {
            lemma_initial_ring();
            assert(rows@ =~= initial_map().rows);
            assert(tiles@ =~= initial_map().tiles);
        }
        MapStreamer { rows, tiles, phase: 0 }
    }

    /// The rows of the ring, in the order of their slots.
    pub fn rows(&self) -> (rows: &Vec<Row>)
        ensures
            rows@ == self@.rows,
            self@.ring_ok(),
    {
        proof {
            use_type_invariant(self);
        }
        &self.rows
    }

    /// The live tiles, oldest first.
    pub fn tiles(&self) -> (tiles: &Vec<Tile>)
        ensures
            tiles@ == self@.tiles,
            self@.ring_ok(),
    {
        proof {
            use_type_invariant(self);
        }
        &self.tiles
    }

    /// Index of the first row that waits for new tiles, if one does.
    pub fn pending_row(&self) -> (r: Option<usize>)
        ensures
            self@.ring_ok(),
            match r {
                Some(i) => self@.pending() == Some(i as int) && self@.waits_first(i as int),
                None => self@.pending() is None && self@.none_pending(),
            },
    {
        proof {
            use_type_invariant(self);
        }
        let mut i: usize = 0;
        while i < self.rows.len()
            invariant
                i <= self.rows@.len(),
                self@.ring_ok(),
                forall|j: int| 0 <= j < i ==> !(#[trigger] self.rows@[j]).to_be_processed,
            decreases self.rows@.len() - i,
        {
            if self.rows[i].to_be_processed {
                proof {
                    assert(self@.waits_first(i as int));
                    lemma_pending_is_first(self@, i as int);
                }
                return Some(i);
            }
            i = i + 1;
        }
        proof {
            assert forall|k: int| !(#[trigger] self@.waits_first(k)) by {}
        }
        None
    }

    /// Moves every row and every tile down by `distance` millipixels, the
    /// product of the scroll speed and the time that has passed. A row that
    /// falls below the bottom edge comes back one map height higher and
    /// waits for new tiles; a tile that falls below the drop line is
    /// destroyed. The answer tells, for each tile that was live before the
    /// call, whether it was destroyed.
    ///
    /// One call scrolls by one map height at most, so that every row stays
    /// on the map.
    pub fn scroll(&mut self, distance: u32) -> (expired: Vec<bool>)
        requires
            distance <= MAP_HEIGHT_MPX,
        ensures
            final(self)@ == old(self)@.scrolled(distance as int),
            final(self)@.ring_ok(),
            old(self)@.none_pending() && distance <= TILE_SIDE_MPX
                ==> final(self)@.at_most_one_pending(),
            expired@.len() == old(self)@.tiles.len(),
            forall|k: int|
                0 <= k < expired@.len() ==> #[trigger] expired@[k] == tile_gone(
                    tile_after(old(self)@.tiles[k], distance as int),
                ),
    {
        proof {
            use_type_invariant(&*self);
        }
        let d: i64 = distance as i64;
        let mut rows: Vec<Row> = Vec::new();
        let mut i: usize = 0;
        while i < self.rows.len()
            invariant
                i <= self.rows@.len(),
                self@.ring_ok(),
                0 <= d <= MAP_HEIGHT_MPX,
                rows@.len() == i,
                forall|j: int| 0 <= j < i ==> #[trigger] rows@[j] == row_after(self.rows@[j], d as int),
            decreases self.rows@.len() - i,
        {
            let row = self.rows[i];
            assert(BOTTOM_EDGE_Y <= self@.rows[i as int].y_pos <= TOP_EDGE_Y);
            let y: i64 = row.y_pos - d;
            if y < BOTTOM_EDGE_Y {
                rows.push(Row { y_pos: y + MAP_HEIGHT_MPX, to_be_processed: true });
            } else {
                rows.push(Row { y_pos: y, to_be_processed: row.to_be_processed });
            }
            i = i + 1;
        }
        let mut tiles: Vec<Tile> = Vec::new();
        let mut expired: Vec<bool> = Vec::new();
        let mut k: usize = 0;
        while k < self.tiles.len()
            invariant
                k <= self.tiles@.len(),
                self@.ring_ok(),
                0 <= d <= MAP_HEIGHT_MPX,
                tiles@ == surviving_upto(self.tiles@, d as int, k as nat),
                expired@.len() == k,
                forall|j: int|
                    0 <= j < k ==> #[trigger] expired@[j] == tile_gone(
                        tile_after(self.tiles@[j], d as int),
                    ),
            decreases self.tiles@.len() - k,
        {
            let tile = self.tiles[k];
            assert(!tile_gone(self@.tiles[k as int]));
            let moved = Tile {
                position: Vec3 { x: tile.position.x, y: tile.position.y - d, z: tile.position.z },
            };
            if moved.position.y < TILE_DROP_Y {
                expired.push(true);
            } else {
                expired.push(false);
                tiles.push(moved);
            }
            k = k + 1;
        }
        let phase: i64 = (self.phase + d) % MAP_HEIGHT_MPX;
        proof {
            lemma_scroll_keeps_ring(self@, d as int);
            assert(rows@ =~= self@.scrolled(d as int).rows);
        }
        *self = MapStreamer { rows, tiles, phase };
        expired
    }

    /// Gives the first row that waits its tiles, as `rolls` decide on
    /// them, and ends its wait. The new tiles join the live tiles at the end;
    /// the answer is their number. Without a waiting row nothing changes.
    #[verifier::loop_isolation(false)]
    pub fn generate_with(&mut self, rolls: &Vec<u32>) -> (spawned: usize)
        ensures
            final(self)@ == old(self)@.regenerated(rolls@),
            final(self)@.ring_ok(),
            old(self)@.at_most_one_pending() ==> final(self)@.none_pending(),
            spawned == final(self)@.tiles.len() - old(self)@.tiles.len(),
    {
        proof {
            use_type_invariant(&*self);
            lemma_regenerate_keeps_ring(self@, rolls@);
        }
        match self.pending_row() {
            None => 0,
            Some(i) => {
                let y: i64 = self.rows[i].y_pos;
                let fresh: Vec<Tile> = spawn_row(y, rolls);
                let mut rows: Vec<Row> = Vec::new();
                let mut j: usize = 0;
                while j < self.rows.len()
                    invariant
                        j <= self.rows@.len(),
                        rows@.len() == j,
                        forall|n: int|
                            0 <= n < j ==> #[trigger] rows@[n] == self@.regenerated(rolls@).rows[n],
                    decreases self.rows@.len() - j,
                {
                    if j == i {
                        rows.push(Row { y_pos: y, to_be_processed: false });
                    } else {
                        rows.push(self.rows[j]);
                    }
                    j = j + 1;
                }
                assert(rows@ =~= self@.regenerated(rolls@).rows);
                let mut tiles: Vec<Tile> = Vec::new();
                proof {
                    // The ring stays sound while its tiles are out of it,
                    // before and after the row's wait has ended.
                    let bare = StreamerView { tiles: Seq::empty(), ..self@ };
                    let done = StreamerView { tiles: Seq::empty(), ..self@.regenerated(rolls@) };
                    assert forall|j: int| 0 <= j < bare.rows.len() implies #[trigger] bare.in_slot(j) by {
                        assert(self@.in_slot(j));
                    }
                    assert forall|j: int| 0 <= j < done.rows.len() implies #[trigger] done.in_slot(j) by {
                        assert(self@.regenerated(rolls@).in_slot(j));
                    }
                    assert(bare.ring_ok());
                    assert(done.ring_ok());
                }
                core::mem::swap(&mut self.tiles, &mut tiles);
                core::mem::swap(&mut self.rows, &mut rows);
                let mut n: usize = 0;
                while n < fresh.len()
                    invariant
                        n <= fresh@.len(),
                        tiles@ == old(self)@.tiles + fresh@.take(n as int),
                    decreases fresh@.len() - n,
                {
                    tiles.push(fresh[n]);
                    assert(old(self)@.tiles + fresh@.take(n + 1) =~= (old(self)@.tiles + fresh@.take(
                        n as int,
                    )).push(fresh@[n as int]));
                    n = n + 1;
                }
                assert(fresh@.take(fresh@.len() as int) =~= fresh@);
                core::mem::swap(&mut self.tiles, &mut tiles);
                fresh.len()
            },
        }
    }

    /// Gives the first row that waits its tiles, with one fresh roll of
    /// the random source for each interior slot, and ends its wait. The
    /// answer is the number of new tiles.
    pub fn generate_row(&mut self) -> (spawned: usize)
        ensures
            exists|rolls: Seq<u32>|
                rolls.len() == ROW_SLOTS && (forall|k: int|
                    0 <= k < rolls.len() ==> #[trigger] rolls[k] < ROLL_LIMIT)
                    && final(self)@ == old(self)@.regenerated(rolls),
            final(self)@.ring_ok(),
            old(self)@.at_most_one_pending() ==> final(self)@.none_pending(),
            spawned == final(self)@.tiles.len() - old(self)@.tiles.len(),
    {
        let mut rolls: Vec<u32> = Vec::new();
        let mut k: usize = 0;
        while k < ROW_SLOTS
            invariant
                k <= ROW_SLOTS,
                rolls@.len() == k,
                forall|j: int| 0 <= j < k ==> #[trigger] rolls@[j] < ROLL_LIMIT,
            decreases ROW_SLOTS - k,
        {
            rolls.push(draw(0, ROLL_LIMIT as i32) as u32);
            k = k + 1;
        }
        let spawned: usize = self.generate_with(&rolls);
        assert(self@ == old(self)@.regenerated(rolls@));
        spawned
    }
}

impl Tile {
    /// A tile centred on `(x, y)`.
    pub fn at(x: i64, y: i64) -> (t: Tile)
        ensures
            t.position == (Vec3 { x, y, z: 0 }),
    {
        Tile { position: Vec3 { x, y, z: 0 } }
    }
}

} // verus!
