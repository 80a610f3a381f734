//! Footprint-aware path planning over an occupancy grid.
//!
//! An actor moves one cell at a time along the moves of a table. Each move
//! names the cell it lands on and the further cells that the actor's body
//! sweeps, all relative to the cell it leaves; the move is open only when
//! every one of them is a free cell of the map.

use vstd::prelude::*;
use crate::geometry::{cell_in_grid, grid_column, grid_row, Pos, Vec3};
use crate::occupancy::{cell_free, OccupancyGrid};

verus! {

/// One entry of a move table.
#[derive(Debug)]
pub struct Move {
    /// Offset of the cell the actor lands on.
    pub step: Pos,
    /// Offsets of the other cells that must be free for the move.
    pub clearance: Vec<Pos>,
}

/// The mathematical content of a `Move`.
pub struct MoveRule {
    pub step: Pos,
    pub clearance: Seq<Pos>,
}

impl View for Move {
    type V = MoveRule;

    open spec fn view(&self) -> MoveRule {
        MoveRule { step: self.step, clearance: self.clearance@ }
    }
}

/// The rules of a move table, in table order.
pub open spec fn rules(moves: Seq<Move>) -> Seq<MoveRule> {
    Seq::new(moves.len(), |i: int| moves[i]@)
}

/// Whether an actor on `from` may take the move `rule`.
pub open spec fn move_allowed(from: Pos, rule: MoveRule, blocked: Set<Pos>) -> bool {
    &&& cell_free(blocked, from.x + rule.step.x, from.y + rule.step.y)
    &&& forall|k: int|
        0 <= k < rule.clearance.len() ==> cell_free(
            blocked,
            from.x + (#[trigger] rule.clearance[k]).x,
            from.y + rule.clearance[k].y,
        )
}

/// The cell that `rule` leads to from `from`.
pub open spec fn landing(from: Pos, rule: MoveRule) -> Pos {
    Pos { x: (from.x + rule.step.x) as i32, y: (from.y + rule.step.y) as i32 }
}

/// The successors that the first `n` rules give for `from`, each at cost 1.
pub open spec fn successors_upto(
    from: Pos,
    table: Seq<MoveRule>,
    blocked: Set<Pos>,
    n: nat,
) -> Seq<(Pos, u32)>
    decreases n,
{
    if n == 0 {
        Seq::empty()
    } else {
        let before = successors_upto(from, table, blocked, (n - 1) as nat);
        if move_allowed(from, table[n - 1], blocked) {
            before.push((landing(from, table[n - 1]), 1u32))
        } else {
            before
        }
    }
}

/// The cells that can be reached from `from` in one move, in table order,
/// each at cost 1.
pub open spec fn successors_of(from: Pos, table: Seq<MoveRule>, blocked: Set<Pos>) -> Seq<
    (Pos, u32),
> {
    successors_upto(from, table, blocked, table.len())
}

/// Whether `b` is a successor of `a`.
pub open spec fn is_step(a: Pos, b: Pos, table: Seq<MoveRule>, blocked: Set<Pos>) -> bool {
    successors_of(a, table, blocked).contains((b, 1u32))
}

/// Whether `path` leads from `start` to `goal` over cells of the map, each
/// cell a successor of the one before it.
pub open spec fn is_route(
    path: Seq<Pos>,
    start: Pos,
    goal: Pos,
    table: Seq<MoveRule>,
    blocked: Set<Pos>,
) -> bool {
    &&& path.len() >= 1
    &&& path[0] == start
    &&& path[path.len() - 1] == goal
    &&& start.in_grid()
    &&& forall|i: int|
        #![trigger path[i]]
        0 <= i < path.len() - 1 ==> is_step(path[i], path[i + 1], table, blocked)
}

/// Whether some route leads from `start` to `goal`.
pub open spec fn route_exists(start: Pos, goal: Pos, table: Seq<MoveRule>, blocked: Set<Pos>) -> bool {
    exists|path: Seq<Pos>| is_route(path, start, goal, table, blocked)
}

/// The cell an actor on `start` heads for: its own column on row `goal_row`.
pub open spec fn goal_cell(start: Pos, goal_row: i32) -> Pos {
    Pos { x: start.x, y: goal_row }
}

/// The contents of an optional path.
pub open spec fn path_view(r: Option<Vec<Pos>>) -> Option<Seq<Pos>> {
    match r {
        Some(path) => Some(path@),
        None => None,
    }
}

/// A successor comes from an open rule of the table, and every open rule
/// gives a successor.
proof fn lemma_successors_upto(
    from: Pos,
    table: Seq<MoveRule>,
    blocked: Set<Pos>,
    n: nat,
    b: Pos,
)
    requires
        n <= table.len(),
    ensures
        successors_upto(from, table, blocked, n).contains((b, 1u32)) <==> exists|k: int|
            0 <= k < n && move_allowed(from, #[trigger] table[k], blocked) && landing(from, table[k])
                == b,
    decreases n,
{
    if n > 0 {
        let before = successors_upto(from, table, blocked, (n - 1) as nat);
        lemma_successors_upto(from, table, blocked, (n - 1) as nat, b);
        let last = table[n - 1];
        if move_allowed(from, last, blocked) {
            let now = before.push((landing(from, last), 1u32));
            assert(now[now.len() - 1] == (landing(from, last), 1u32));
            if now.contains((b, 1u32)) {
                let j = choose|j: int| 0 <= j < now.len() && now[j] == (b, 1u32);
                if j < before.len() {
                    assert(before[j] == (b, 1u32));
                } else {
                    assert(landing(from, table[n - 1]) == b);
                }
            }
            if before.contains((b, 1u32)) {
                let j = choose|j: int| 0 <= j < before.len() && before[j] == (b, 1u32);
                assert(now[j] == (b, 1u32));
            }
        }
    }
}

/// `b` is a successor of `a` exactly when some rule of the table is open on
/// `a` and lands on `b`.
pub proof fn lemma_step_by_rule(a: Pos, b: Pos, table: Seq<MoveRule>, blocked: Set<Pos>)
    ensures
        is_step(a, b, table, blocked) <==> exists|k: int|
            0 <= k < table.len() && move_allowed(a, #[trigger] table[k], blocked) && landing(
                a,
                table[k],
            ) == b,
        is_step(a, b, table, blocked) ==> b.in_grid() && !blocked.contains(b),
{
    lemma_successors_upto(a, table, blocked, table.len(), b);
}

/// Every cell of a route lies on the playable map.
pub proof fn lemma_route_in_grid(
    path: Seq<Pos>,
    start: Pos,
    goal: Pos,
    table: Seq<MoveRule>,
    blocked: Set<Pos>,
)
    requires
        is_route(path, start, goal, table, blocked),
    ensures
        forall|i: int| 0 <= i < path.len() ==> (#[trigger] path[i]).in_grid(),
        goal.in_grid(),
{
    assert forall|i: int| 0 <= i < path.len() implies (#[trigger] path[i]).in_grid() by {
        if i > 0 {
            assert(is_step(path[i - 1], path[i - 1 + 1], table, blocked));
            lemma_step_by_rule(path[i - 1], path[i], table, blocked);
        }
    }
}

/// No path: when every cell that a move of the table lands on from `start`
/// is blocked or off the map, no route leads from `start` to any other cell.
pub proof fn lemma_walled_in_start_has_no_route(
    start: Pos,
    goal: Pos,
    table: Seq<MoveRule>,
    blocked: Set<Pos>,
)
    requires
        start != goal,
        forall|k: int|
            0 <= k < table.len() ==> !cell_free(
                blocked,
                start.x + (#[trigger] table[k]).step.x,
                start.y + table[k].step.y,
            ),
    ensures
        !route_exists(start, goal, table, blocked),
{
    assert forall|path: Seq<Pos>| !is_route(path, start, goal, table, blocked) by {
        if is_route(path, start, goal, table, blocked) {
            assert(path.len() >= 2);
            assert(is_step(path[0], path[0int + 1], table, blocked));
            lemma_step_by_rule(path[0], path[1], table, blocked);
        }
    }
}

/// Whether every move of the table changes the row by one at most.
pub open spec fn rows_one_at_a_time(table: Seq<MoveRule>) -> bool {
    forall|k: int| 0 <= k < table.len() ==> -1 <= (#[trigger] table[k]).step.y <= 1
}

/// Along a route whose moves change the row by one at most, cell `i` is at
/// most `i` rows from the start.
proof fn lemma_rows_behind(
    path: Seq<Pos>,
    start: Pos,
    goal: Pos,
    table: Seq<MoveRule>,
    blocked: Set<Pos>,
    i: int,
)
    requires
        is_route(path, start, goal, table, blocked),
        rows_one_at_a_time(table),
        0 <= i < path.len(),
    ensures
        -i <= path[i].y - start.y <= i,
    decreases i,
{
    if i > 0 {
        lemma_rows_behind(path, start, goal, table, blocked, i - 1);
        assert(is_step(path[i - 1], path[i - 1 + 1], table, blocked));
        lemma_step_by_rule(path[i - 1], path[i], table, blocked);
    }
}

/// Path length: a route whose moves change the row by one at most takes at
/// least as many steps as there are rows between its start and its goal.
pub proof fn lemma_route_spans_rows(
    path: Seq<Pos>,
    start: Pos,
    goal: Pos,
    table: Seq<MoveRule>,
    blocked: Set<Pos>,
)
    requires
        is_route(path, start, goal, table, blocked),
        rows_one_at_a_time(table),
    ensures
        path.len() - 1 >= start.y - goal.y,
        path.len() - 1 >= goal.y - start.y,
{
    lemma_rows_behind(path, start, goal, table, blocked, path.len() - 1);
}

/// Tells whether the cell at offset `d` from `input` is a free cell of the map.
fn offset_free(input: Pos, d: Pos, grid: &OccupancyGrid) -> (b: bool)
    ensures
        b == cell_free(grid@, input.x + d.x, input.y + d.y),
{
    let x: i64 = input.x as i64 + d.x as i64;
    let y: i64 = input.y as i64 + d.y as i64;
    if i32::MIN as i64 <= x && x <= i32::MAX as i64 && i32::MIN as i64 <= y && y <= i32::MAX as i64 {
        grid.free_at(Pos { x: x as i32, y: y as i32 })
    } else {
        false
    }
}

/// Tells whether an actor on `input` may take the move `mv`: the landing
/// cell and every cell of the clearance must be free cells of the map.
pub fn move_fits(input: Pos, mv: &Move, grid: &OccupancyGrid) -> (b: bool)
    ensures
        b == move_allowed(input, mv@, grid@),
{
    if !offset_free(input, mv.step, grid) {
        return false;
    }
    let mut k: usize = 0;
    while k < mv.clearance.len()
        invariant
            k <= mv.clearance.len(),
            forall|j: int|
                0 <= j < k ==> cell_free(
                    grid@,
                    input.x + (#[trigger] mv.clearance@[j]).x,
                    input.y + mv.clearance@[j].y,
                ),
        decreases mv.clearance.len() - k,
    {
        if !offset_free(input, mv.clearance[k], grid) {
            assert(mv@.clearance[k as int] == mv.clearance@[k as int]);
            return false;
        }
        k = k + 1;
    }
    true
}

/// The cells an actor on `input` can move to, in table order, each with
/// the uniform cost 1.
pub fn successors(input: Pos, grid: &OccupancyGrid, moves: &Vec<Move>) -> (out: Vec<(Pos, u32)>)
    ensures
        out@ == successors_of(input, rules(moves@), grid@),
{
    let mut out: Vec<(Pos, u32)> = Vec::new();
    let mut i: usize = 0;
    while i < moves.len()
        invariant
            i <= moves.len(),
            out@ == successors_upto(input, rules(moves@), grid@, i as nat),
        decreases moves.len() - i,
    {
        let mv = &moves[i];
        assert(rules(moves@)[i as int] == mv@);
        if move_fits(input, mv, grid) {
            let cell = Pos { x: input.x + mv.step.x, y: input.y + mv.step.y };
            out.push((cell, 1u32));
        }
        i = i + 1;
    }
    out
}

/// The path that the A* search of the `pathfinding` crate returns for a
/// start cell, a goal cell, the blocked cells of a grid and a move table.
pub uninterp spec fn astar_route(
    start: Pos,
    goal: Pos,
    blocked: Set<Pos>,
    table: Seq<MoveRule>,
) -> Option<Seq<Pos>>;

/// Runs `pathfinding::prelude::astar` from `start`, with `successors` as the
/// successor function, the Manhattan distance to `goal` as the heuristic and
/// arrival on `goal` as the success test, and keeps the path of the answer.
///
/// Trusted, not proved: the search is a function of its arguments; a path
/// it returns starts on `start`, ends on `goal`, and each of its cells is
/// among the successors of the cell before it; it returns none only when no
/// such path exists. Start and goal must lie on the map so that every
/// distance the heuristic computes fits its result type.
#[verifier::external_body]
fn astar_search(start: Pos, goal: Pos, grid: &OccupancyGrid, moves: &Vec<Move>) -> (r: Option<
    Vec<Pos>,
>)
    requires
        start.in_grid(),
        goal.in_grid(),
    ensures
        path_view(r) == astar_route(start, goal, grid@, rules(moves@)),
        r matches Some(path) ==> is_route(path@, start, goal, rules(moves@), grid@),
        r is None ==> !route_exists(start, goal, rules(moves@), grid@),
{
    pathfinding::prelude::astar(
        &start,
        |p| successors(*p, grid, moves),
        |p| p.distance(&goal),
        |p| p.is_at(&goal),
    ).map(|found| found.0)
}

/// The raw path that `plan` answers with: none when the start or the goal
/// lies off the map, else what the search returns.
pub open spec fn planned(start: Pos, goal_row: i32, blocked: Set<Pos>, table: Seq<MoveRule>) -> Option<
    Seq<Pos>,
> {
    if start.in_grid() && goal_cell(start, goal_row).in_grid() {
        astar_route(start, goal_cell(start, goal_row), blocked, table)
    } else {
        None
    }
}

/// Plans a path for an actor on `start` to the cell of its own column on
/// row `goal_row`. The path holds every cell from `start` to the goal, both
/// included, in travel order. There is none when no route exists, which
/// includes a start or a goal off the map.
pub fn plan(start: Pos, goal_row: i32, grid: &OccupancyGrid, moves: &Vec<Move>) -> (r: Option<
    Vec<Pos>,
>)
    ensures
        path_view(r) == planned(start, goal_row, grid@, rules(moves@)),
        r matches Some(path) ==> is_route(
            path@,
            start,
            goal_cell(start, goal_row),
            rules(moves@),
            grid@,
        ),
        r is Some <==> route_exists(start, goal_cell(start, goal_row), rules(moves@), grid@),
{
    let goal = Pos { x: start.x, y: goal_row };
    if !start.is_in_grid() || !goal.is_in_grid() {
        proof {
            if route_exists(start, goal, rules(moves@), grid@) {
                let path = choose|path: Seq<Pos>| is_route(path, start, goal, rules(moves@), grid@);
                lemma_route_in_grid(path, start, goal, rules(moves@), grid@);
            }
        }
        return None;
    }
    astar_search(start, goal, grid, moves)
}

/// Whether the direction of travel changes at the inner waypoint `i`.
pub open spec fn turns_at(path: Seq<Pos>, i: int) -> bool
    recommends
        0 < i < path.len() - 1,
{
    ||| path[i].x - path[i - 1].x != path[i + 1].x - path[i].x
    ||| path[i].y - path[i - 1].y != path[i + 1].y - path[i].y
}

/// Whether pruning keeps waypoint `i`: the two ends and every turn stay.
pub open spec fn kept(path: Seq<Pos>, i: int) -> bool {
    i == 0 || i == path.len() - 1 || turns_at(path, i)
}

/// The kept waypoints among the first `n` of `path`, in order.
pub open spec fn pruned_upto(path: Seq<Pos>, n: nat) -> Seq<Pos>
    decreases n,
{
    if n == 0 {
        Seq::empty()
    } else if kept(path, n - 1) {
        pruned_upto(path, (n - 1) as nat).push(path[n - 1])
    } else {
        pruned_upto(path, (n - 1) as nat)
    }
}

/// `path` without the inner waypoints at which the direction does not change.
pub open spec fn pruned(path: Seq<Pos>) -> Seq<Pos> {
    pruned_upto(path, path.len())
}

/// As long as pruning has looked at one cell at least, the first cell
/// leads what it has kept.
proof fn lemma_prune_starts_with_first(path: Seq<Pos>, n: nat)
    requires
        1 <= n <= path.len(),
    ensures
        pruned_upto(path, n).len() >= 1,
        pruned_upto(path, n)[0] == path[0],
    decreases n,
{
    if n > 1 {
        lemma_prune_starts_with_first(path, (n - 1) as nat);
    } else {
        reveal_with_fuel(pruned_upto, 2);
    }
}

/// Pruning keeps the first and the last cell of a path in their places.
pub proof fn lemma_prune_keeps_ends(path: Seq<Pos>)
    requires
        path.len() >= 1,
    ensures
        pruned(path).len() >= 1,
        pruned(path)[0] == path[0],
        pruned(path)[pruned(path).len() - 1] == path[path.len() - 1],
{
    lemma_prune_starts_with_first(path, path.len());
}

/// Pruning a path of at most two cells changes nothing.
pub proof fn lemma_prune_short(path: Seq<Pos>)
    requires
        path.len() <= 2,
    ensures
        pruned(path) == path,
{
    reveal_with_fuel(pruned_upto, 3);
    assert(pruned(path) =~= path);
}

/// Before the first turn of a path, pruning has kept the first cell only.
proof fn lemma_prune_first_leg(path: Seq<Pos>, n: nat)
    requires
        1 <= n < path.len(),
        forall|i: int| 0 < i < n ==> !turns_at(path, i),
    ensures
        pruned_upto(path, n) == seq![path[0]],
    decreases n,
{
    if n == 1 {
        reveal_with_fuel(pruned_upto, 2);
        assert(pruned_upto(path, 1) =~= seq![path[0]]);
    } else {
        lemma_prune_first_leg(path, (n - 1) as nat);
    }
}

/// Between the single turn of a path and its end, pruning has kept the
/// first cell and the turn.
proof fn lemma_prune_second_leg(path: Seq<Pos>, turn: int, n: nat)
    requires
        0 < turn < n < path.len(),
        turns_at(path, turn),
        forall|i: int| 0 < i < path.len() - 1 && i != turn ==> !turns_at(path, i),
    ensures
        pruned_upto(path, n) == seq![path[0], path[turn]],
    decreases n,
{
    if n == turn + 1 {
        lemma_prune_first_leg(path, turn as nat);
        assert(pruned_upto(path, n) =~= seq![path[0], path[turn]]);
    } else {
        lemma_prune_second_leg(path, turn, (n - 1) as nat);
    }
}

/// Pruning a path that never turns leaves its first and its last cell.
pub proof fn lemma_prune_straight(path: Seq<Pos>)
    requires
        path.len() >= 2,
        forall|i: int| 0 < i < path.len() - 1 ==> !turns_at(path, i),
    ensures
        pruned(path) == seq![path[0], path[path.len() - 1]],
{
    lemma_prune_first_leg(path, (path.len() - 1) as nat);
    assert(pruned(path) =~= seq![path[0], path[path.len() - 1]]);
}

/// Pruning a path that turns once leaves three waypoints: the first cell,
/// the cell of the turn, and the last cell.
pub proof fn lemma_prune_single_turn(path: Seq<Pos>, turn: int)
    requires
        0 < turn < path.len() - 1,
        turns_at(path, turn),
        forall|i: int| 0 < i < path.len() - 1 && i != turn ==> !turns_at(path, i),
    ensures
        pruned(path) == seq![path[0], path[turn], path[path.len() - 1]],
{
    lemma_prune_second_leg(path, turn, (path.len() - 1) as nat);
    assert(pruned(path) =~= seq![path[0], path[turn], path[path.len() - 1]]);
}

/// Tells whether the direction of travel changes at the inner waypoint `i`.
fn turn_at(path: &Vec<Pos>, i: usize) -> (b: bool)
    requires
        0 < i < path.len() - 1,
    ensures
        b == turns_at(path@, i as int),
{
    let before_x: i64 = path[i].x as i64 - path[i - 1].x as i64;
    let before_y: i64 = path[i].y as i64 - path[i - 1].y as i64;
    let after_x: i64 = path[i + 1].x as i64 - path[i].x as i64;
    let after_y: i64 = path[i + 1].y as i64 - path[i].y as i64;
    before_x != after_x || before_y != after_y
}

/// Collapses every run of steps in one direction into a single segment:
/// the first and the last cell stay, and of the cells between them those at
/// which the direction changes.
pub fn prune_path(path: &Vec<Pos>) -> (out: Vec<Pos>)
    ensures
        out@ == pruned(path@),
{
    let mut out: Vec<Pos> = Vec::new();
    let mut i: usize = 0;
    while i < path.len()
        invariant
            i <= path.len(),
            out@ == pruned_upto(path@, i as nat),
        decreases path.len() - i,
    {
        if i == 0 || i == path.len() - 1 || turn_at(path, i) {
            out.push(path[i]);
        }
        i = i + 1;
    }
    out
}

/// The waypoints that an idle actor at world position `position` is given:
/// the pruned path from its cell to `goal_row`, or nothing when it stands
/// off the map or no route exists.
pub open spec fn route_for(
    position: Vec3,
    goal_row: i32,
    blocked: Set<Pos>,
    table: Seq<MoveRule>,
) -> Seq<Pos> {
    let x = grid_column(position.x as int);
    let y = grid_row(position.y as int);
    if cell_in_grid(x, y) {
        match planned(Pos { x: x as i32, y: y as i32 }, goal_row, blocked, table) {
            Some(path) => pruned(path),
            None => Seq::empty(),
        }
    } else {
        Seq::empty()
    }
}

/// Whether an idle actor at `position` has a route: its cell lies on the
/// map and some route leads from it to its goal on row `goal_row`.
pub open spec fn has_route(
    position: Vec3,
    goal_row: i32,
    blocked: Set<Pos>,
    table: Seq<MoveRule>,
) -> bool {
    let x = grid_column(position.x as int);
    let y = grid_row(position.y as int);
    let start = Pos { x: x as i32, y: y as i32 };
    cell_in_grid(x, y) && route_exists(start, goal_cell(start, goal_row), table, blocked)
}

/// Gives an actor that has used up its path a new one; an actor that still
/// has waypoints keeps them. The new path is a route from the actor's cell
/// to its goal, pruned. When the actor stands off the map or no route
/// exists the path stays empty and the actor holds its position.
pub fn refresh_path(
    path: &mut Vec<Pos>,
    position: &Vec3,
    goal_row: i32,
    grid: &OccupancyGrid,
    moves: &Vec<Move>,
)
    ensures
        final(path)@ == if old(path)@.len() > 0 {
            old(path)@
        } else {
            route_for(*position, goal_row, grid@, rules(moves@))
        },
        old(path)@.len() == 0 ==> (final(path)@.len() > 0 <==> has_route(
            *position,
            goal_row,
            grid@,
            rules(moves@),
        )),
        old(path)@.len() == 0 && final(path)@.len() > 0 ==> exists|raw: Seq<Pos>|
            #![trigger pruned(raw)]
            final(path)@ == pruned(raw) && is_route(
                raw,
                Pos::nearest(*position),
                goal_cell(Pos::nearest(*position), goal_row),
                rules(moves@),
                grid@,
            ),
{
    if path.len() > 0 {
        return;
    }
    match Pos::locate(position) {
        Some(start) => {
            match plan(start, goal_row, grid, moves) {
                Some(raw) => {
                    *path = prune_path(&raw);
                    proof {
                        lemma_prune_keeps_ends(raw@);
                        assert(start == Pos::nearest(*position));
                        assert(path@ == pruned(raw@));
                    }
                },
                None => {},
            }
        },
        None => {},
    }
}

} // verus!
