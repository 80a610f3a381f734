//! Move tables: the eight compass steps for an actor of one cell, and the
//! same steps with the clearance that a ship three cells wide asks for.

use vstd::prelude::*;
use crate::geometry::Pos;
use crate::planner::{
    goal_cell, is_route, is_step, lemma_step_by_rule, move_allowed, route_exists, rows_one_at_a_time,
    rules, Move, MoveRule,
};

verus! {

/// A cell offset.
pub open spec fn offset(x: int, y: int) -> Pos {
    Pos { x: x as i32, y: y as i32 }
}

/// The eight compass steps, none with any clearance.
pub open spec fn compass_rules() -> Seq<MoveRule> {
    seq![
        MoveRule { step: offset(1, 1), clearance: seq![] },
        MoveRule { step: offset(1, 0), clearance: seq![] },
        MoveRule { step: offset(1, -1), clearance: seq![] },
        MoveRule { step: offset(0, 1), clearance: seq![] },
        MoveRule { step: offset(0, -1), clearance: seq![] },
        MoveRule { step: offset(-1, 1), clearance: seq![] },
        MoveRule { step: offset(-1, 0), clearance: seq![] },
        MoveRule { step: offset(-1, -1), clearance: seq![] },
    ]
}

/// The eight compass steps of a ship. A straight step needs the three
/// cells two ahead to be free; a diagonal step the five cells that wrap the
/// corner it turns around, so that the ship cannot slip through a gap of
/// one cell.
pub open spec fn ship_rules() -> Seq<MoveRule> {
    seq![
        MoveRule {
            step: offset(1, 1),
            clearance: seq![offset(0, 2), offset(1, 2), offset(2, 2), offset(2, 1), offset(1, 0)],
        },
        MoveRule { step: offset(1, 0), clearance: seq![offset(2, 1), offset(2, 0), offset(2, -1)] },
        MoveRule {
            step: offset(1, -1),
            clearance: seq![offset(2, 0), offset(2, -1), offset(2, -2), offset(1, -2), offset(0, -2)],
        },
        MoveRule { step: offset(0, 1), clearance: seq![offset(-1, 2), offset(0, 2), offset(1, 2)] },
        MoveRule { step: offset(0, -1), clearance: seq![offset(-1, -2), offset(0, -2), offset(1, -2)] },
        MoveRule {
            step: offset(-1, 1),
            clearance: seq![offset(-2, 0), offset(-2, 1), offset(-2, 2), offset(-1, 2), offset(0, 2)],
        },
        MoveRule { step: offset(-1, 0), clearance: seq![offset(-2, 1), offset(-2, 0), offset(-2, -1)] },
        MoveRule {
            step: offset(-1, -1),
            clearance: seq![offset(-2, 0), offset(-2, -1), offset(-2, -2), offset(-1, -2), offset(0, -2)],
        },
    ]
}

/// The cells from `start` straight along its column to row `goal_row`.
pub open spec fn straight_run(start: Pos, goal_row: i32) -> Seq<Pos> {
    if goal_row >= start.y {
        Seq::new((goal_row - start.y + 1) as nat, |i: int| Pos { x: start.x, y: (start.y + i) as i32 })
    } else {
        Seq::new((start.y - goal_row + 1) as nat, |i: int| Pos { x: start.x, y: (start.y - i) as i32 })
    }
}

/// Both tables change the row by one at most with every move.
pub proof fn lemma_tables_step_one_row()
    ensures
        rows_one_at_a_time(compass_rules()),
        rows_one_at_a_time(ship_rules()),
{
}

/// On a map without walls an actor of one cell can go straight along its
/// column: from any cell of the map a route leads to any row of the map in
/// as many steps as there are rows between the two, and by
/// `lemma_route_spans_rows` no route takes fewer.
pub proof fn lemma_free_grid_straight_route(start: Pos, goal_row: i32)
    requires
        start.in_grid(),
        goal_cell(start, goal_row).in_grid(),
    ensures
        is_route(
            straight_run(start, goal_row),
            start,
            goal_cell(start, goal_row),
            compass_rules(),
            Set::<Pos>::empty(),
        ),
        route_exists(start, goal_cell(start, goal_row), compass_rules(), Set::<Pos>::empty()),
        straight_run(start, goal_row).len() - 1 == if goal_row >= start.y {
            goal_row - start.y
        } else {
            start.y - goal_row
        },
{
    let path = straight_run(start, goal_row);
    let table = compass_rules();
    let free = Set::<Pos>::empty();
    assert forall|i: int| #![trigger path[i]] 0 <= i < path.len() - 1 implies is_step(
        path[i],
        path[i + 1],
        table,
        free,
    ) by {
        let k: int = if goal_row >= start.y {
            3
        } else {
            4
        };
        assert(move_allowed(path[i], table[k], free));
        lemma_step_by_rule(path[i], path[i + 1], table, free);
    }
}

/// On a map without walls a ship can go straight along its column as long
/// as it keeps one column away from either side and the cells two ahead of
/// every step lie on the map.
pub proof fn lemma_free_grid_ship_route(start: Pos, goal_row: i32)
    requires
        start.in_grid(),
        goal_cell(start, goal_row).in_grid(),
        1 <= start.x <= 30,
        goal_row > start.y ==> goal_row <= 30,
        goal_row < start.y ==> goal_row >= 1,
    ensures
        is_route(
            straight_run(start, goal_row),
            start,
            goal_cell(start, goal_row),
            ship_rules(),
            Set::<Pos>::empty(),
        ),
        route_exists(start, goal_cell(start, goal_row), ship_rules(), Set::<Pos>::empty()),
{
    let path = straight_run(start, goal_row);
    let table = ship_rules();
    let free = Set::<Pos>::empty();
    assert forall|i: int| #![trigger path[i]] 0 <= i < path.len() - 1 implies is_step(
        path[i],
        path[i + 1],
        table,
        free,
    ) by {
        let k: int = if goal_row >= start.y {
            3
        } else {
            4
        };
        assert(table[k].clearance.len() == 3);
        assert(move_allowed(path[i], table[k], free));
        lemma_step_by_rule(path[i], path[i + 1], table, free);
    }
    assert(is_route(path, start, goal_cell(start, goal_row), table, free));
}

/// Builds one table entry.
fn entry(x: i32, y: i32, clearance: Vec<Pos>) -> (m: Move)
    ensures
        m@ == (MoveRule { step: Pos { x, y }, clearance: clearance@ }),
{
    Move { step: Pos { x, y }, clearance }
}

/// Builds a clearance of three cells.
fn three(a: (i32, i32), b: (i32, i32), c: (i32, i32)) -> (v: Vec<Pos>)
    ensures
        v@ == seq![Pos { x: a.0, y: a.1 }, Pos { x: b.0, y: b.1 }, Pos { x: c.0, y: c.1 }],
{
    let mut v: Vec<Pos> = Vec::new();
    v.push(Pos { x: a.0, y: a.1 });
    v.push(Pos { x: b.0, y: b.1 });
    v.push(Pos { x: c.0, y: c.1 });
    assert(v@ =~= seq![Pos { x: a.0, y: a.1 }, Pos { x: b.0, y: b.1 }, Pos { x: c.0, y: c.1 }]);
    v
}

/// Builds a clearance of five cells.
fn five(a: (i32, i32), b: (i32, i32), c: (i32, i32), d: (i32, i32), e: (i32, i32)) -> (v: Vec<Pos>)
    ensures
        v@ == seq![
            Pos { x: a.0, y: a.1 },
            Pos { x: b.0, y: b.1 },
            Pos { x: c.0, y: c.1 },
            Pos { x: d.0, y: d.1 },
            Pos { x: e.0, y: e.1 },
        ],
{
    let mut v: Vec<Pos> = three(a, b, c);
    v.push(Pos { x: d.0, y: d.1 });
    v.push(Pos { x: e.0, y: e.1 });
    assert(v@ =~= seq![
        Pos { x: a.0, y: a.1 },
        Pos { x: b.0, y: b.1 },
        Pos { x: c.0, y: c.1 },
        Pos { x: d.0, y: d.1 },
        Pos { x: e.0, y: e.1 },
    ]);
    v
}

/// The move table of an actor that fills a single cell.
pub fn compass_moves() -> (moves: Vec<Move>)
    ensures
        rules(moves@) == compass_rules(),
{
    let mut moves: Vec<Move> = Vec::new();
    moves.push(entry(1, 1, Vec::new()));
    moves.push(entry(1, 0, Vec::new()));
    moves.push(entry(1, -1, Vec::new()));
    moves.push(entry(0, 1, Vec::new()));
    moves.push(entry(0, -1, Vec::new()));
    moves.push(entry(-1, 1, Vec::new()));
    moves.push(entry(-1, 0, Vec::new()));
    moves.push(entry(-1, -1, Vec::new()));
    assert(rules(moves@) =~~= compass_rules());
    moves
}

/// The move table of a ship.
pub fn ship_moves() -> (moves: Vec<Move>)
    ensures
        rules(moves@) == ship_rules(),
{
    let mut moves: Vec<Move> = Vec::new();
    moves.push(entry(1, 1, five((0, 2), (1, 2), (2, 2), (2, 1), (1, 0))));
    moves.push(entry(1, 0, three((2, 1), (2, 0), (2, -1))));
    moves.push(entry(1, -1, five((2, 0), (2, -1), (2, -2), (1, -2), (0, -2))));
    moves.push(entry(0, 1, three((-1, 2), (0, 2), (1, 2))));
    moves.push(entry(0, -1, three((-1, -2), (0, -2), (1, -2))));
    moves.push(entry(-1, 1, five((-2, 0), (-2, 1), (-2, 2), (-1, 2), (0, 2))));
    moves.push(entry(-1, 0, three((-2, 1), (-2, 0), (-2, -1))));
    moves.push(entry(-1, -1, five((-2, 0), (-2, -1), (-2, -2), (-1, -2), (0, -2))));
    assert(rules(moves@) =~~= ship_rules());
    moves
}

} // verus!
