use tetris_core::{
    next_piece, Game, Piece, Playfield, Tetris, HEIGHT, HIDDEN_ROWS, SIZE, VISIBLE_HEIGHT, WIDTH,
};

fn piece(cells: [(usize, usize); 4], color: u8) -> Piece {
    Piece { cells, color }
}

fn game_with(field: Playfield, current: Piece, next: Piece) -> Game {
    Game { field, current, next, timer: 0, over: false }
}

fn rows_plus_one(p: &Piece) -> [(usize, usize); 4] {
    let mut r = p.cells;
    for c in r.iter_mut() {
        c.1 += 1;
    }
    r
}

#[test]
fn grid_dimensions() {
    assert_eq!(WIDTH, 10);
    assert_eq!(VISIBLE_HEIGHT, 20);
    assert_eq!(HIDDEN_ROWS, 4);
    assert_eq!(HEIGHT, 24);
    assert_eq!(SIZE, 240);
    let f = Playfield::new();
    assert_eq!(f.len(), 240);
    for i in 0..SIZE {
        assert_eq!(f.cell(i), 0);
    }
}

#[test]
fn shapes_decode_divide_then_modulo() {
    let p = Piece::from_index(1);
    assert_eq!(p.cells, [(0, 0), (0, 1), (1, 0), (2, 0)]);
    assert_eq!(p.color, 1);
    let p = Piece::from_index(3);
    assert_eq!(p.cells, [(0, 0), (0, 1), (1, 0), (1, 1)]);
    let p = Piece::from_index(6);
    assert_eq!(p.cells, [(0, 1), (1, 0), (1, 1), (2, 0)]);
    assert_eq!(p.color, 6);
}

#[test]
fn generator_gives_valid_distinct_cells() {
    let mut t = Tetris::new(7);
    for _ in 0..200 {
        let p = next_piece(&mut t.rng);
        assert!(p.color >= 1 && p.color < 7);
        let expected = Piece::from_index(p.color);
        assert_eq!(p.cells, expected.cells);
        for i in 0..4 {
            for j in (i + 1)..4 {
                assert_ne!(p.cells[i], p.cells[j]);
            }
        }
    }
}

#[test]
fn generator_draws_more_than_one_color() {
    let mut t = Tetris::new(11);
    let first = next_piece(&mut t.rng).color;
    let mut other = false;
    for _ in 0..200 {
        if next_piece(&mut t.rng).color != first {
            other = true;
        }
    }
    assert!(other);
}

#[test]
fn same_seed_same_pieces() {
    let a = Tetris::new(42);
    let b = Tetris::new(42);
    assert_eq!(a.game.current.cells, b.game.current.cells);
    assert_eq!(a.game.current.color, b.game.current.color);
    assert_eq!(a.game.next.color, b.game.next.color);
    assert!(a.game.current.color >= 1 && a.game.current.color < 7);
    assert!(a.game.next.color >= 1 && a.game.next.color < 7);
    assert_eq!(a.game.timer, 0);
    assert!(!a.game.over);
}

#[test]
fn tick_before_interval_changes_nothing() {
    let mut g = Game::new(2, 4);
    let before = g.current.cells;
    g.update(400, false, false, true, false, 1);
    assert_eq!(g.current.cells, before);
    assert_eq!(g.timer, 400);
    g.update(100, false, false, false, true, 1);
    assert_eq!(g.current.cells, before);
    assert_eq!(g.timer, 500);
    for i in 0..SIZE {
        assert_eq!(g.field.cell(i), 0);
    }
    g.update(1, false, false, false, false, 1);
    assert_eq!(g.current.cells, rows_plus_one(&Piece::from_index(2)));
    assert_eq!(g.timer, 0);
}

#[test]
fn tick_past_interval_moves_down_one_row() {
    let mut g = Game::new(5, 3);
    let spawn = g.current.cells;
    g.update(600, false, false, false, false, 1);
    let mut expected = spawn;
    for c in expected.iter_mut() {
        c.1 += 1;
    }
    assert_eq!(g.current.cells, expected);
    assert_eq!(g.current.color, 5);
    assert_eq!(g.timer, 0);
    assert_eq!(g.next.color, 3);
}

#[test]
fn quick_drop_shortens_interval() {
    let mut g = Game::new(1, 1);
    g.update(300, false, false, false, false, 1);
    assert_eq!(g.current.cells, Piece::from_index(1).cells);
    g.update(0, false, true, false, false, 1);
    assert_eq!(g.current.cells, rows_plus_one(&Piece::from_index(1)));
    assert_eq!(g.timer, 0);
}

#[test]
fn piece_locks_on_bottom_row() {
    let current = piece([(4, 21), (4, 22), (5, 21), (5, 22)], 3);
    let next = Piece::from_index(2);
    let mut g = game_with(Playfield::new(), current, next);
    g.update(600, false, false, false, false, 6);
    assert_eq!(g.field.get(4, 23), 3);
    assert_eq!(g.field.get(5, 23), 3);
    assert_eq!(g.field.get(4, 22), 3);
    assert_eq!(g.field.get(5, 22), 3);
    assert_eq!(g.field.get(4, 21), 0);
    assert_eq!(g.current.cells, next.cells);
    assert_eq!(g.current.color, 2);
    assert_eq!(g.next.cells, Piece::from_index(6).cells);
    assert_eq!(g.next.color, 6);
    assert_eq!(g.timer, 0);
    assert!(!g.over);
    let mut count = 0;
    for i in 0..SIZE {
        if g.field.cell(i) != 0 {
            count += 1;
        }
    }
    assert_eq!(count, 4);
}

#[test]
fn piece_locks_on_top_of_block() {
    let mut field = Playfield::new();
    field.lock(&piece([(0, 23), (1, 23), (2, 23), (3, 23)], 1));
    let current = piece([(2, 20), (2, 21), (3, 20), (3, 21)], 4);
    let mut g = game_with(field, current, Piece::from_index(5));
    g.update(600, false, false, false, false, 2);
    assert_eq!(g.field.get(2, 22), 4);
    assert_eq!(g.field.get(3, 22), 4);
    assert_eq!(g.field.get(2, 21), 4);
    assert_eq!(g.field.get(3, 21), 4);
    assert_eq!(g.field.get(2, 23), 1);
    assert_eq!(g.current.color, 5);
    assert_eq!(g.next.color, 2);
}

#[test]
fn left_edge_rejects_shift_but_gravity_applies() {
    let current = piece([(0, 5), (0, 6), (1, 5), (2, 5)], 1);
    let mut g = game_with(Playfield::new(), current, Piece::from_index(1));
    g.update(600, false, false, true, false, 1);
    assert_eq!(g.current.cells, [(0, 6), (0, 7), (1, 6), (2, 6)]);
    assert_eq!(g.timer, 0);
}

#[test]
fn left_shift_from_column_one() {
    let current = piece([(1, 5), (1, 6), (2, 5), (3, 5)], 1);
    let mut g = game_with(Playfield::new(), current, Piece::from_index(1));
    g.update(600, false, false, true, false, 1);
    assert_eq!(g.current.cells, [(0, 6), (0, 7), (1, 6), (2, 6)]);
}

#[test]
fn right_edge_rejects_shift() {
    let current = piece([(7, 5), (8, 5), (9, 5), (9, 6)], 2);
    let mut g = game_with(Playfield::new(), current, Piece::from_index(1));
    g.update(600, false, false, false, true, 1);
    assert_eq!(g.current.cells, [(7, 6), (8, 6), (9, 6), (9, 7)]);
}

#[test]
fn right_shift_to_last_column() {
    let current = piece([(6, 5), (7, 5), (8, 5), (8, 6)], 2);
    let mut g = game_with(Playfield::new(), current, Piece::from_index(1));
    g.update(600, false, false, false, true, 1);
    assert_eq!(g.current.cells, [(7, 6), (8, 6), (9, 6), (9, 7)]);
}

#[test]
fn occupied_neighbour_rejects_whole_shift() {
    let mut field = Playfield::new();
    field.lock(&piece([(3, 6), (3, 12), (3, 13), (3, 14)], 7));
    let current = piece([(4, 5), (4, 6), (5, 5), (6, 5)], 1);
    let mut g = game_with(field, current, Piece::from_index(1));
    g.update(600, false, false, true, false, 1);
    assert_eq!(g.current.cells, [(4, 6), (4, 7), (5, 6), (6, 6)]);
    assert!(g.field.is_occupied(3, 6));
    assert!(!g.field.is_occupied(3, 7));
}

#[test]
fn left_and_right_together_do_not_shift() {
    let current = piece([(4, 5), (4, 6), (5, 5), (6, 5)], 1);
    let mut g = game_with(Playfield::new(), current, Piece::from_index(1));
    g.update(600, true, false, true, true, 1);
    assert_eq!(g.current.cells, [(4, 6), (4, 7), (5, 6), (6, 6)]);
}

#[test]
fn up_has_no_effect() {
    let mut a = Game::new(4, 2);
    let mut b = Game::new(4, 2);
    a.update(600, true, false, false, false, 1);
    b.update(600, false, false, false, false, 1);
    assert_eq!(a.current.cells, b.current.cells);
    assert_eq!(a.timer, b.timer);
}

#[test]
fn reads_between_ticks_agree() {
    let mut field = Playfield::new();
    field.lock(&piece([(0, 23), (1, 23), (2, 23), (3, 23)], 3));
    let g = game_with(field, Piece::from_index(4), Piece::from_index(5));
    for i in 0..SIZE {
        assert_eq!(g.field.cell(i), g.field.cell(i));
    }
    assert_eq!(g.field.get(1, 23), 3);
    assert_eq!(g.field.get(1, 23), g.field.get(1, 23));
    assert_eq!(g.field.is_occupied(2, 23), g.field.is_occupied(2, 23));
    assert_eq!(g.current.cells, g.current.cells);
}

#[test]
fn spawn_into_blocks_ends_game() {
    let mut field = Playfield::new();
    field.lock(&piece([(0, 0), (0, 1), (1, 0), (1, 1)], 7));
    let current = piece([(4, 21), (4, 22), (5, 21), (5, 22)], 3);
    let mut g = game_with(field, current, Piece::from_index(3));
    g.update(600, false, false, false, false, 1);
    assert!(g.over);
    let cells = g.current.cells;
    g.update(600, false, false, false, false, 1);
    assert_eq!(g.current.cells, cells);
    assert_eq!(g.timer, 0);
}

#[test]
fn session_tick_steps_game() {
    let mut t = Tetris::new(3);
    let spawn = t.game.current.cells;
    t.update(250, false, false, false, false);
    assert_eq!(t.game.current.cells, spawn);
    assert_eq!(t.game.timer, 250);
    t.update(300, false, false, false, false);
    let mut expected = spawn;
    for c in expected.iter_mut() {
        c.1 += 1;
    }
    assert_eq!(t.game.current.cells, expected);
}

#[test]
fn session_runs_until_game_over() {
    let mut t = Tetris::new(5);
    let mut locks = 0;
    let mut ticks = 0;
    while !t.game.over && ticks < 10000 {
        let next_color = t.game.next.color;
        let was_next = t.game.next.cells;
        t.update(600, false, false, false, false);
        if t.game.current.cells == was_next && t.game.current.color == next_color {
            locks += 1;
            assert!(t.game.next.color >= 1 && t.game.next.color < 7);
        }
        ticks += 1;
    }
    assert!(t.game.over);
    assert!(locks > 1);
}
