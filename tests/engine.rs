use tetris_engine::display::Cell;
use tetris_engine::game::GameState;
use tetris_engine::piece::{draw_kind, Tetromino};
use tetris_engine::shapes::{color_of, rotated, shape_of, Color, GRID_HEIGHT, GRID_WIDTH};

const RED: Color = Color { r: 255, g: 0, b: 0 };
const YELLOW: Color = Color { r: 255, g: 255, b: 0 };

fn filled_cells(s: &GameState) -> usize {
    s.grid.iter().map(|row| row.iter().filter(|c| c.is_some()).count()).sum()
}

fn fill_row(s: &mut GameState, r: usize) {
    for c in 0..GRID_WIDTH {
        s.grid[r][c] = Some(RED);
    }
}

#[test]
fn rotation_is_a_four_cycle_for_every_kind() {
    for kind in 0..7 {
        let s = shape_of(kind);
        let once = rotated(&s);
        let back = rotated(&rotated(&rotated(&once)));
        assert_eq!(back, s);
        if kind != 1 {
            assert_ne!(once, s);
        }
    }
}

#[test]
fn rotation_formula() {
    // T: new[i][j] = old[3 - j][i]
    let t = shape_of(2);
    let r = rotated(&t);
    for i in 0..4 {
        for j in 0..4 {
            assert_eq!(r[i][j], t[3 - j][i]);
        }
    }
    assert_eq!(r[0], [false, true, false, false]);
    assert_eq!(r[1], [false, true, true, false]);
    assert_eq!(r[2], [false, true, false, false]);
}

#[test]
fn spawn_position_and_colour() {
    let p = Tetromino::of_kind(1);
    assert_eq!(p.x, 5);
    assert_eq!(p.y, 0);
    assert_eq!(p.color, YELLOW);
    assert_eq!(color_of(0), Color { r: 0, g: 255, b: 255 });
    assert_eq!(color_of(6), Color { r: 255, g: 165, b: 0 });
}

#[test]
fn random_kinds_are_in_range() {
    for _ in 0..200 {
        assert!(draw_kind() < 7);
        let p = Tetromino::new();
        assert_eq!((p.x, p.y), (5, 0));
    }
}

#[test]
fn everything_in_bounds_fits_on_an_empty_board() {
    let s = GameState::new();
    for kind in 0..7 {
        let mut p = Tetromino::of_kind(kind);
        p.y = -1;
        assert!(s.can_move(&p, 0, 0));
        // I occupies local columns 0..3 of row 1: x from 0 to 11 stays inside.
        if kind == 0 {
            p.x = 0;
            assert!(s.can_move(&p, 0, 0));
            assert!(s.can_move(&p, 11, 0));
            assert!(!s.can_move(&p, -1, 0));
            assert!(!s.can_move(&p, 12, 0));
            // row 1 of the matrix at row 19 is the floor row; one more is past it
            assert!(s.can_move(&p, 0, 19));
            assert!(!s.can_move(&p, 0, 20));
        }
    }
}

#[test]
fn locked_cells_block_placement() {
    let mut s = GameState::new();
    s.grid[1][6] = Some(RED);
    let p = Tetromino::of_kind(1);
    assert!(!s.can_move(&p, 0, 0));
    assert!(s.can_move(&p, 2, 0));
}

#[test]
fn clearing_rows_three_and_seven() {
    let mut s = GameState::new();
    fill_row(&mut s, 3);
    fill_row(&mut s, 7);
    s.grid[2][0] = Some(YELLOW);
    s.grid[5][1] = Some(YELLOW);
    s.grid[19][2] = Some(YELLOW);
    let n = s.clear_lines();
    assert_eq!(n, 2);
    assert_eq!(s.score, 400);
    assert!(s.grid[0].iter().all(|c| c.is_none()));
    assert!(s.grid[1].iter().all(|c| c.is_none()));
    assert_eq!(s.grid[4][0], Some(YELLOW));
    assert_eq!(s.grid[6][1], Some(YELLOW));
    assert_eq!(s.grid[19][2], Some(YELLOW));
    assert_eq!(filled_cells(&s), 3);
    assert_eq!(s.grid.len(), GRID_HEIGHT);
}

#[test]
fn clearing_adjacent_full_rows() {
    let mut s = GameState::new();
    fill_row(&mut s, 18);
    fill_row(&mut s, 19);
    s.grid[17][4] = Some(YELLOW);
    let n = s.clear_lines();
    assert_eq!(n, 2);
    assert_eq!(s.grid[19][4], Some(YELLOW));
    assert_eq!(filled_cells(&s), 1);
}

#[test]
fn score_for_one_two_and_four_rows() {
    let mut s = GameState::new();
    fill_row(&mut s, 19);
    assert_eq!(s.clear_lines(), 1);
    assert_eq!(s.score, 100);

    let mut s = GameState::new();
    fill_row(&mut s, 10);
    fill_row(&mut s, 19);
    assert_eq!(s.clear_lines(), 2);
    assert_eq!(s.score, 400);

    let mut s = GameState::new();
    for r in 16..20 {
        fill_row(&mut s, r);
    }
    s.score = 50;
    assert_eq!(s.clear_lines(), 4);
    assert_eq!(s.score, 1650);
    assert_eq!(filled_cells(&s), 0);
}

#[test]
fn score_is_held_at_the_maximum() {
    let mut s = GameState::new();
    fill_row(&mut s, 19);
    s.score = u64::MAX - 10;
    s.clear_lines();
    assert_eq!(s.score, u64::MAX);
}

#[test]
fn no_full_rows_clears_nothing() {
    let mut s = GameState::new();
    s.grid[19][0] = Some(RED);
    assert_eq!(s.clear_lines(), 0);
    assert_eq!(s.score, 0);
    assert_eq!(s.grid[19][0], Some(RED));
}

#[test]
fn game_over_after_locking_at_spawn() {
    for k1 in 0..7 {
        for k2 in 0..7 {
            let mut s = GameState::new();
            s.start_with(k1);
            s.lock_piece_with(k2);
            assert!(s.game_over);
            assert_eq!(s.score, 0);
            assert_eq!(filled_cells(&s), 4);
            let grid = s.grid.clone();
            let piece = s.current_piece;
            s.move_left();
            s.move_right();
            s.rotate();
            assert!(!s.move_down_with(0));
            s.drop_with(3);
            s.lock_piece_with(1);
            assert_eq!(s.grid, grid);
            assert_eq!(s.score, 0);
            assert_eq!(s.current_piece.map(|p| (p.x, p.y)), piece.map(|p| (p.x, p.y)));
            assert!(s.game_over);
            s.start_with(k2);
            assert!(!s.game_over);
            assert_eq!(filled_cells(&s), 0);
        }
    }
}

#[test]
fn move_left_at_the_wall_is_refused() {
    let mut s = GameState::new();
    s.start_with(1);
    // the O piece occupies local columns 1 and 2; x = -1 puts column 1 at the wall
    let mut p = s.current_piece.unwrap();
    p.x = -1;
    s.current_piece = Some(p);
    s.move_left();
    assert_eq!(s.current_piece.unwrap().x, -1);
    s.move_right();
    assert_eq!(s.current_piece.unwrap().x, 0);
}

#[test]
fn moves_and_rotation() {
    let mut s = GameState::new();
    s.start_with(0);
    s.move_right();
    assert_eq!(s.current_piece.unwrap().x, 6);
    s.move_left();
    s.move_left();
    assert_eq!(s.current_piece.unwrap().x, 4);
    s.rotate();
    let p = s.current_piece.unwrap();
    assert_eq!(p.shape, rotated(&shape_of(0)));
    assert_eq!((p.x, p.y), (4, 0));
    // the vertical I occupies column x + 2; at x = -2 it stands at column 0
    for _ in 0..10 {
        s.move_left();
    }
    assert_eq!(s.current_piece.unwrap().x, -2);
    // turning back would put cells at columns -2 and -1
    s.rotate();
    assert_eq!(s.current_piece.unwrap().shape, rotated(&shape_of(0)));
}

#[test]
fn hard_drop_locks_once_and_spawns() {
    let mut s = GameState::new();
    s.start_with(1);
    s.drop_with(2);
    assert_eq!(filled_cells(&s), 4);
    for (r, c) in [(18, 6), (18, 7), (19, 6), (19, 7)] {
        assert_eq!(s.grid[r][c], Some(YELLOW));
    }
    let p = s.current_piece.unwrap();
    assert_eq!((p.x, p.y), (5, 0));
    assert_eq!(p.shape, shape_of(2));
    assert!(!s.game_over);
    s.drop_with(0);
    assert_eq!(filled_cells(&s), 8);
    // the T lands on the O: its stem at row 16, its bar at row 17
    for (r, c) in [(16, 6), (17, 5), (17, 6), (17, 7)] {
        assert_eq!(s.grid[r][c], Some(Color { r: 128, g: 0, b: 128 }));
    }
}

#[test]
fn hard_drop_clears_a_completed_row() {
    let mut s = GameState::new();
    s.start_with(0);
    for c in 0..GRID_WIDTH {
        if !(5..9).contains(&c) {
            s.grid[19][c] = Some(RED);
        }
    }
    s.grid[18][0] = Some(RED);
    s.drop_with(1);
    assert_eq!(s.score, 100);
    assert_eq!(filled_cells(&s), 1);
    assert_eq!(s.grid[19][0], Some(RED));
}

#[test]
fn o_piece_settles_at_the_bottom() {
    let mut s = GameState::new();
    s.current_piece = Some(Tetromino { x: 6, ..Tetromino::of_kind(1) });
    // the O matrix occupies local rows 1 and 2: the piece rests at y = 17
    for k in 0..17 {
        assert!(s.move_down_with(4), "step {}", k);
        assert_eq!(filled_cells(&s), 0);
    }
    assert_eq!(s.current_piece.unwrap().y, 17);
    assert!(!s.move_down_with(4));
    for (r, c) in [(18, 7), (18, 8), (19, 7), (19, 8)] {
        assert_eq!(s.grid[r][c], Some(YELLOW));
    }
    assert_eq!(filled_cells(&s), 4);
    assert_eq!(s.score, 0);
    let p = s.current_piece.unwrap();
    assert_eq!((p.x, p.y), (5, 0));
    assert_eq!(p.shape, shape_of(4));
    assert!(!s.game_over);
}

#[test]
fn random_commands_keep_the_rules() {
    let mut s = GameState::new();
    s.start();
    assert!(s.current_piece.is_some());
    let mut last = s.score;
    for k in 0..300 {
        match k % 5 {
            0 => s.move_left(),
            1 => s.rotate(),
            2 => s.move_right(),
            3 => {
                s.move_down();
            }
            _ => s.drop(),
        }
        assert!(s.score >= last);
        last = s.score;
        if s.game_over {
            s.start();
            last = 0;
        }
    }
    s.lock_piece();
    s.spawn_new_piece();
}

#[test]
fn display_merges_board_and_piece() {
    let mut s = GameState::new();
    s.start_with(1);
    s.grid[19][0] = Some(RED);
    let g = s.get_display_grid();
    assert_eq!(g.len(), GRID_HEIGHT);
    assert!(g.iter().all(|row| row.len() == GRID_WIDTH));
    assert_eq!(g[19][0], Cell { color: RED, filled: true });
    assert_eq!(g[1][6], Cell { color: YELLOW, filled: true });
    assert_eq!(g[2][7], Cell { color: YELLOW, filled: true });
    assert_eq!(g[0][6], Cell { color: Color { r: 0, g: 0, b: 0 }, filled: false });
    let filled = g.iter().flatten().filter(|c| c.filled).count();
    assert_eq!(filled, 5);
}

#[test]
fn display_prefers_locked_cells() {
    let mut s = GameState::new();
    s.start_with(1);
    s.grid[1][6] = Some(RED);
    let g = s.get_display_grid();
    assert_eq!(g[1][6], Cell { color: RED, filled: true });
    assert_eq!(g[1][7], Cell { color: YELLOW, filled: true });
}

#[test]
fn spawn_into_a_full_area_ends_the_game() {
    let mut s = GameState::new();
    s.grid[2][6] = Some(RED);
    s.spawn_new_piece_with(3);
    assert!(s.game_over);
    assert!(s.current_piece.is_none());
    let mut t = GameState::new();
    t.spawn_new_piece_with(3);
    assert!(!t.game_over);
    assert_eq!(t.current_piece.unwrap().shape, shape_of(3));
}

#[test]
fn occupancy_query() {
    let mut s = GameState::new();
    s.grid[0][3] = Some(RED);
    assert!(s.is_occupied(3, 0));
    assert!(!s.is_occupied(4, 0));
    assert!(!s.is_occupied(3, -1));
    assert!(!s.is_occupied(-1, 0));
    assert!(!s.is_occupied(15, 0));
    assert!(!s.is_occupied(3, 20));
}
