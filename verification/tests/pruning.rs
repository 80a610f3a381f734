use rockquid::geometry::Pos;
use rockquid::planner::prune_path;

#[test]
fn prune_test() {
    let path = vec![Pos { x: 0, y: 0 }, Pos { x: 0, y: 1 }];
    assert_eq!(path, prune_path(&path));
}

#[test]
fn prune_test_1() {
    let path = vec![Pos { x: 0, y: 0 }];
    assert_eq!(path, prune_path(&path));
}

#[test]
fn dont_prune_different_nodes() {
    let path = vec![Pos { x: 0, y: 0 }, Pos { x: 1, y: 1 }, Pos { x: -1, y: 2 }];
    assert_eq!(path, prune_path(&path));
}

#[test]
fn prune_3_nodes_when_the_middle_is_redundant() {
    let path = vec![Pos { x: 0, y: 0 }, Pos { x: 1, y: 1 }, Pos { x: 2, y: 2 }];
    assert_eq!(
        vec![Pos { x: 0, y: 0 }, Pos { x: 2, y: 2 }],
        prune_path(&path)
    );
}

#[test]
fn prune_5_nodes_when_there_are_redundants() {
    let path = vec![
        Pos { x: 0, y: 0 },
        Pos { x: 1, y: 1 },
        Pos { x: 2, y: 2 },
        Pos { x: 1, y: 3 },
        Pos { x: 0, y: 4 },
    ];
    assert_eq!(
        vec![Pos { x: 0, y: 0 }, Pos { x: 2, y: 2 }, Pos { x: 0, y: 4 }],
        prune_path(&path)
    );
}
