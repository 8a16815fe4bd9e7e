use snake::direction::Direction;
use snake::game::Cell;
use snake::game::GameGrid;
use snake::game::Status;

fn cell(col: u32, row: u32) -> Cell {
    Cell { col, row }
}

fn body_of(g: &GameGrid) -> Vec<Cell> {
    let mut v = Vec::new();
    let mut i = 0;
    while i < g.body_len() {
        v.push(g.body_cell(i));
        i += 1;
    }
    v
}

#[test]
fn opposite_values() {
    assert_eq!(Direction::Up.opposite(), Direction::Down);
    assert_eq!(Direction::Down.opposite(), Direction::Up);
    assert_eq!(Direction::Left.opposite(), Direction::Right);
    assert_eq!(Direction::Right.opposite(), Direction::Left);
    for d in [Direction::Up, Direction::Down, Direction::Left, Direction::Right] {
        assert_eq!(d.opposite().opposite(), d);
        assert_ne!(d.opposite(), d);
    }
}

#[test]
fn new_game_starts_centered_heading_right() {
    let g = GameGrid::new(20, 20, 0);
    assert!(g.is_alive());
    assert_eq!(g.body_len(), 1);
    assert_eq!(g.head(), cell(10, 10));
    assert_eq!(g.heading(), Direction::Right);
    assert_eq!(g.pending_heading(), Direction::Right);
    assert_eq!(g.width(), 20);
    assert_eq!(g.height(), 20);
    // Food: the generator maps seed 0 to 1013904223; 399 free cells
    // remain, 1013904223 % 399 == 136, and the 136th free cell in
    // row-major order is (16, 6).
    assert_eq!(g.food(), cell(16, 6));
}

#[test]
fn single_step_moves_head_right() {
    let mut g = GameGrid::new(20, 20, 0);
    assert_ne!(g.food(), cell(11, 10));
    g.update();
    assert!(g.is_alive());
    assert_eq!(g.body_len(), 1);
    assert_eq!(body_of(&g), vec![cell(11, 10)]);
}

#[test]
fn reversal_is_ignored_and_tail_cell_is_legal() {
    let g = GameGrid::from_parts(
        vec![cell(5, 5), cell(4, 5)],
        Direction::Left,
        Direction::Left,
        cell(0, 0),
        20,
        20,
        7,
    );
    let mut g = g.expect("parts form a valid state");
    g.change_direction(Direction::Right);
    assert_eq!(g.pending_heading(), Direction::Left);
    g.update();
    assert!(g.is_alive());
    assert_eq!(body_of(&g), vec![cell(4, 5), cell(5, 5)]);
    assert_eq!(g.heading(), Direction::Left);
}

#[test]
fn wall_collision_kills() {
    let g = GameGrid::from_parts(
        vec![cell(0, 10)],
        Direction::Left,
        Direction::Left,
        cell(3, 3),
        20,
        20,
        7,
    );
    let mut g = g.expect("parts form a valid state");
    g.update();
    assert!(!g.is_alive());
    assert_eq!(g.status(), Status::Dead);
    assert_eq!(body_of(&g), vec![cell(0, 10)]);
    assert_eq!(g.food(), cell(3, 3));
}

#[test]
fn eating_grows_by_one_and_relocates_food() {
    let g = GameGrid::from_parts(
        vec![cell(5, 5)],
        Direction::Right,
        Direction::Right,
        cell(6, 5),
        20,
        20,
        1,
    );
    let mut g = g.expect("parts form a valid state");
    g.update();
    assert!(g.is_alive());
    assert_eq!(g.body_len(), 2);
    assert_eq!(body_of(&g), vec![cell(6, 5), cell(5, 5)]);
    assert_eq!(g.heading(), Direction::Right);
    // Food: the generator maps seed 1 to 1015568748; 398 free cells
    // remain, 1015568748 % 398 == 108, and the 108th free cell in
    // row-major order (skipping (5,5) and (6,5)) is (10, 5).
    assert_eq!(g.food(), cell(10, 5));
    assert_ne!(g.food(), cell(6, 5));
    assert_ne!(g.food(), cell(5, 5));
}

#[test]
fn self_collision_kills() {
    let g = GameGrid::from_parts(
        vec![cell(5, 5), cell(5, 6), cell(4, 6), cell(4, 5)],
        Direction::Down,
        Direction::Down,
        cell(0, 0),
        20,
        20,
        3,
    );
    let mut g = g.expect("parts form a valid state");
    g.update();
    assert_eq!(g.status(), Status::Dead);
    assert_eq!(
        body_of(&g),
        vec![cell(5, 5), cell(5, 6), cell(4, 6), cell(4, 5)]
    );
}

#[test]
fn terminal_state_is_frozen() {
    let g = GameGrid::from_parts(
        vec![cell(0, 10)],
        Direction::Left,
        Direction::Left,
        cell(3, 3),
        20,
        20,
        7,
    );
    let mut g = g.expect("parts form a valid state");
    g.update();
    assert!(!g.is_alive());
    let body = body_of(&g);
    let heading = g.heading();
    let pending = g.pending_heading();
    let food = g.food();
    g.update();
    g.change_direction(Direction::Up);
    g.update();
    assert_eq!(body_of(&g), body);
    assert_eq!(g.heading(), heading);
    assert_eq!(g.pending_heading(), pending);
    assert_eq!(g.food(), food);
    assert_eq!(g.status(), Status::Dead);
}

#[test]
fn filling_the_grid_wins() {
    let g = GameGrid::from_parts(
        vec![cell(0, 0)],
        Direction::Down,
        Direction::Down,
        cell(0, 1),
        1,
        2,
        9,
    );
    let mut g = g.expect("parts form a valid state");
    g.update();
    assert!(g.is_won());
    assert!(!g.is_alive());
    assert_eq!(body_of(&g), vec![cell(0, 1), cell(0, 0)]);
    g.update();
    assert!(g.is_won());
    assert_eq!(body_of(&g), vec![cell(0, 1), cell(0, 0)]);
}

#[test]
fn one_cell_grid_is_won_at_birth() {
    let g = GameGrid::new(1, 1, 5);
    assert!(g.is_won());
    assert_eq!(g.body_len(), 1);
    assert_eq!(g.head(), cell(0, 0));
}

#[test]
fn accepted_direction_applies_on_next_tick() {
    let g = GameGrid::from_parts(
        vec![cell(5, 5)],
        Direction::Right,
        Direction::Right,
        cell(0, 0),
        20,
        20,
        2,
    );
    let mut g = g.expect("parts form a valid state");
    g.change_direction(Direction::Up);
    assert_eq!(g.pending_heading(), Direction::Up);
    assert_eq!(g.heading(), Direction::Right);
    g.update();
    assert_eq!(g.heading(), Direction::Up);
    assert_eq!(body_of(&g), vec![cell(5, 4)]);
}

#[test]
fn last_accepted_request_wins_and_rejection_checks_heading() {
    let g = GameGrid::from_parts(
        vec![cell(5, 5)],
        Direction::Right,
        Direction::Right,
        cell(0, 0),
        20,
        20,
        2,
    );
    let mut g = g.expect("parts form a valid state");
    g.change_direction(Direction::Up);
    // Left reverses the committed heading (Right), not the pending one,
    // so it is rejected and Up stays.
    g.change_direction(Direction::Left);
    assert_eq!(g.pending_heading(), Direction::Up);
    g.change_direction(Direction::Down);
    assert_eq!(g.pending_heading(), Direction::Down);
    g.update();
    assert_eq!(g.heading(), Direction::Down);
    assert_eq!(body_of(&g), vec![cell(5, 6)]);
}

#[test]
fn same_seed_same_game() {
    let mut a = GameGrid::new(20, 20, 42);
    let mut b = GameGrid::new(20, 20, 42);
    assert_eq!(a.food(), b.food());
    for _ in 0..10 {
        a.update();
        b.update();
        assert_eq!(body_of(&a), body_of(&b));
        assert_eq!(a.food(), b.food());
        assert_eq!(a.status(), b.status());
    }
}

#[test]
fn reachable_states_keep_body_shape_and_food_free() {
    let dirs = [Direction::Down, Direction::Left, Direction::Up, Direction::Right];
    let mut g = GameGrid::new(8, 8, 123);
    for tick in 0..200 {
        g.change_direction(dirs[tick % 4]);
        g.update();
        let body = body_of(&g);
        for w in body.windows(2) {
            let dx = w[0].col.abs_diff(w[1].col);
            let dy = w[0].row.abs_diff(w[1].row);
            assert_eq!(dx + dy, 1, "consecutive cells must be grid-adjacent");
        }
        for (i, a) in body.iter().enumerate() {
            for b in &body[i + 1..] {
                assert_ne!(a, b, "no cell may appear twice in the body");
            }
        }
        if !g.is_won() {
            assert!(!body.contains(&g.food()), "food must lie off the body");
        }
    }
}

#[test]
fn from_parts_rejects_malformed_states() {
    let ok = |body: Vec<Cell>, food: Cell| {
        GameGrid::from_parts(body, Direction::Right, Direction::Right, food, 20, 20, 0)
    };
    assert!(ok(vec![cell(5, 5), cell(4, 5)], cell(0, 0)).is_some());
    // zero grid dimension
    assert!(GameGrid::from_parts(
        vec![cell(0, 0)],
        Direction::Right,
        Direction::Right,
        cell(0, 1),
        0,
        20,
        0
    )
    .is_none());
    // empty body
    assert!(ok(vec![], cell(0, 0)).is_none());
    // body cell out of bounds
    assert!(ok(vec![cell(20, 5)], cell(0, 0)).is_none());
    // food out of bounds
    assert!(ok(vec![cell(5, 5)], cell(5, 20)).is_none());
    // non-adjacent consecutive cells
    assert!(ok(vec![cell(5, 5), cell(7, 5)], cell(0, 0)).is_none());
    // diagonal neighbors are not adjacent
    assert!(ok(vec![cell(5, 5), cell(6, 6)], cell(0, 0)).is_none());
    // duplicate cell
    assert!(ok(
        vec![cell(5, 5), cell(5, 6), cell(5, 5)],
        cell(0, 0)
    )
    .is_none());
    // food on the body
    assert!(ok(vec![cell(5, 5), cell(4, 5)], cell(4, 5)).is_none());
    // pending heading reverses the committed one
    assert!(GameGrid::from_parts(
        vec![cell(5, 5)],
        Direction::Right,
        Direction::Left,
        cell(0, 0),
        20,
        20,
        0
    )
    .is_none());
}
