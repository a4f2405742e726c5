//! Engine behavior: spawning, rotation, movement, gravity, locking, line
//! clears, scoring, and the state machine.

use tetris::game::{Command, Game};
use tetris::interface::{xt_yt, GameState};
use tetris::tetris::Tetris;

/// A piece with every field chosen by hand.
fn piece(kind: usize, row: i32, col: i32, direc: usize, color: u8) -> Tetris {
    Tetris { kind, position: [row, col], direc, color }
}

/// A game in the Playing state with an empty board and fixed pieces.
fn playing(curter: Tetris) -> Game {
    let mut g = Game::new();
    g.state = GameState::Playing;
    g.curter = curter;
    g.nxtter = piece(0, -2, 5, 0, 3);
    g
}

fn occupied_count(g: &Game) -> usize {
    let mut n = 0;
    for r in 0..20 {
        for c in 0..10 {
            if g.blockes[r][c] != 0 {
                n += 1;
            }
        }
    }
    n
}

#[test]
fn test_xt_yt_rotates_clockwise() {
    let p = [1, 0];
    assert_eq!(xt_yt(&p, &piece(0, 0, 0, 0, 1)), (1, 0));
    assert_eq!(xt_yt(&p, &piece(0, 0, 0, 1, 1)), (0, 1));
    assert_eq!(xt_yt(&p, &piece(0, 0, 0, 2, 1)), (-1, 0));
    assert_eq!(xt_yt(&p, &piece(0, 0, 0, 3, 1)), (0, -1));
    assert_eq!(xt_yt(&[0, 1], &piece(0, 7, 3, 1, 1)), (7 - 1, 3));
}

#[test]
fn test_occupied_cells_t_piece() {
    let t = piece(0, 5, 5, 0, 1);
    let cells = t.occupied_cells();
    assert_eq!(cells, vec![(5, 5), (5, 4), (5, 6), (6, 5)]);
}

#[test]
fn test_occupied_cells_four_distinct_all_kinds() {
    for kind in 0..7 {
        for direc in 0..4 {
            let t = piece(kind, 10, 5, direc, 1);
            let cells = t.occupied_cells();
            assert_eq!(cells.len(), 4);
            for i in 0..4 {
                for j in 0..4 {
                    if i != j {
                        assert_ne!(cells[i], cells[j], "kind {} direc {}", kind, direc);
                    }
                }
            }
        }
    }
}

#[test]
fn test_turn_right_four_times_is_identity() {
    for start in 0..4 {
        let mut t = piece(1, 0, 5, start, 1);
        for step in 1..=4 {
            t.turn_right();
            assert_eq!(t.direc, (start + step) % 4);
        }
        assert_eq!(t.direc, start);
    }
}

#[test]
fn test_turn_left_inverts_turn_right() {
    for start in 0..4 {
        let mut t = piece(2, 0, 5, start, 1);
        t.turn_right();
        t.turn_left();
        assert_eq!(t.direc, start);
        t.turn_left();
        t.turn_right();
        assert_eq!(t.direc, start);
    }
}

#[test]
fn test_spawn_fields_in_range_and_color_cycles() {
    let mut color_turn: u8 = 8;
    let a = Tetris::new(&mut color_turn);
    assert!(a.kind < 7);
    assert!(a.direc < 4);
    assert_eq!(a.position, [-2, 5]);
    assert_eq!(color_turn, 1);
    assert_eq!(a.color, 2);
    let b = Tetris::new(&mut color_turn);
    assert_eq!(b.color, 3);
    assert_eq!(color_turn, 2);
    for _ in 0..20 {
        let t = Tetris::new(&mut color_turn);
        assert!(1 <= t.color && t.color <= 8);
    }
}

#[test]
fn test_game_new_is_stopped_and_empty() {
    let g = Game::new();
    assert_eq!(g.state, GameState::Stopped);
    assert_eq!(g.scores, 0);
    assert_eq!(g.blockes.len(), 20);
    for r in 0..20 {
        assert_eq!(g.blockes[r].len(), 10);
        for c in 0..10 {
            assert_eq!(g.blockes[r][c], 0);
        }
    }
    assert_eq!(g.curter.position, [-2, 5]);
    assert_eq!(g.nxtter.position, [-2, 5]);
}

#[test]
fn test_shift_round_trip() {
    let mut g = playing(piece(0, 5, 5, 0, 1));
    g.shift(-1);
    assert_eq!(g.curter.position, [5, 4]);
    g.shift(1);
    assert_eq!(g.curter.position, [5, 5]);
    assert_eq!(g.scores, 0);
    assert_eq!(g.state, GameState::Playing);
}

#[test]
fn test_shift_left_blocked_at_wall() {
    // the T piece at anchor column 1 occupies columns 0..3
    let mut g = playing(piece(0, 5, 1, 0, 1));
    g.shift(-1);
    assert_eq!(g.curter.position, [5, 1]);
}

#[test]
fn test_apply_move_left_at_left_wall_keeps_position() {
    let mut g = playing(piece(0, 5, 1, 0, 1));
    let started = g.apply(Command::MoveLeft);
    assert!(!started);
    assert_eq!(g.curter.position, [5, 1]);
    assert_eq!(g.state, GameState::Playing);
}

#[test]
fn test_shift_blocked_by_occupied_cell() {
    let mut g = playing(piece(0, 5, 5, 0, 1));
    g.blockes[5][3] = 4;
    g.shift(-1);
    assert_eq!(g.curter.position, [5, 5]);
    g.shift(1);
    assert_eq!(g.curter.position, [5, 6]);
}

#[test]
fn test_turn_rotates_on_open_board() {
    let mut g = playing(piece(0, 5, 5, 0, 1));
    g.turn();
    assert_eq!(g.curter.direc, 1);
    assert_eq!(g.curter.position, [5, 5]);
}

#[test]
fn test_turn_reverts_against_wall() {
    // a vertical I piece hugging the left wall cannot turn flat
    let mut g = playing(piece(5, 10, 0, 0, 1));
    g.turn();
    assert_eq!(g.curter.direc, 0);
    assert_eq!(g.curter.position, [10, 0]);
}

#[test]
fn test_down_moves_piece_one_row() {
    let mut g = playing(piece(0, 5, 5, 0, 1));
    g.down();
    assert_eq!(g.curter.position, [6, 5]);
    assert_eq!(g.scores, 0);
    assert_eq!(occupied_count(&g), 0);
    assert_eq!(g.state, GameState::Playing);
}

#[test]
fn test_t_piece_drops_from_spawn_and_locks_at_bottom() {
    let mut g = playing(piece(0, -2, 5, 0, 1));
    let mut steps = 0;
    while occupied_count(&g) == 0 {
        g.down();
        steps += 1;
        assert!(steps <= 30, "the piece never locked");
        assert_eq!(g.state, GameState::Playing, "no game over on an empty board");
    }
    // the piece locks in the two bottom rows with all cells on the board
    assert_eq!(occupied_count(&g), 4);
    assert_eq!(g.blockes[18][4], 1);
    assert_eq!(g.blockes[18][5], 1);
    assert_eq!(g.blockes[18][6], 1);
    assert_eq!(g.blockes[19][5], 1);
    assert_eq!(g.scores, 0);
    // the next piece became active and a fresh next piece was spawned
    assert_eq!(g.curter, piece(0, -2, 5, 0, 3));
    assert_eq!(g.nxtter.position, [-2, 5]);
}

#[test]
fn test_single_line_clear_awards_20() {
    // row 19 is full except column 0; a vertical I piece fills the gap
    let mut g = playing(piece(5, 10, 0, 0, 2));
    for c in 1..10 {
        g.blockes[19][c] = 7;
    }
    while g.scores == 0 {
        assert_eq!(g.state, GameState::Playing);
        let before = g.curter.position[0];
        g.down();
        if g.scores == 0 {
            assert!(g.curter.position[0] == before + 1 || occupied_count(&g) > 0);
        }
    }
    assert_eq!(g.scores, 20);
    // the full row is gone; the rest of the piece moved down one row
    assert_eq!(g.blockes[19][0], 2);
    for c in 1..10 {
        assert_eq!(g.blockes[19][c], 0, "the cleared row's contents are gone");
    }
    assert_eq!(g.blockes[18][0], 2);
    assert_eq!(g.blockes[17][0], 2);
    assert_eq!(g.blockes[16][0], 0);
}

#[test]
fn test_double_line_clear_awards_400() {
    // rows 18 and 19 are full except column 0; the I piece fills both
    let mut g = playing(piece(5, 10, 0, 0, 2));
    for c in 1..10 {
        g.blockes[18][c] = 7;
        g.blockes[19][c] = 7;
    }
    for _ in 0..30 {
        if g.scores != 0 {
            break;
        }
        g.down();
    }
    assert_eq!(g.scores, 400);
    // two locked cells survive the clear, shifted down by two rows
    assert_eq!(g.blockes[19][0], 2);
    assert_eq!(g.blockes[18][0], 2);
    assert_eq!(g.blockes[17][0], 0);
    for c in 1..10 {
        assert_eq!(g.blockes[19][c], 0);
        assert_eq!(g.blockes[18][c], 0);
    }
}

#[test]
fn test_game_over_when_grounded_above_top() {
    let mut g = playing(piece(0, -2, 5, 0, 1));
    g.blockes[0][5] = 3;
    g.down();
    assert_eq!(g.state, GameState::Stopped);
    // nothing was written: only the pre-filled cell is occupied
    assert_eq!(occupied_count(&g), 1);
    assert_eq!(g.blockes[0][5], 3);
    assert_eq!(g.scores, 0);
}

#[test]
fn test_pause_toggle_keeps_game_and_reports_timer() {
    let mut g = Game::new();
    assert_eq!(g.state, GameState::Stopped);
    let started = g.trans();
    assert!(started, "starting a game starts a gravity timer");
    assert_eq!(g.state, GameState::Playing);
    assert_eq!(g.scores, 0);

    let board_before = g.blockes.clone();
    let piece_before = g.curter;
    let started = g.trans();
    assert!(!started, "pausing lets the gravity timer die");
    assert_eq!(g.state, GameState::Pausing);
    assert_eq!(g.blockes, board_before);
    assert_eq!(g.curter, piece_before);
    assert_eq!(g.scores, 0);

    let started = g.trans();
    assert!(started, "resuming starts a new gravity timer");
    assert_eq!(g.state, GameState::Playing);
    assert_eq!(g.blockes, board_before);
    assert_eq!(g.curter, piece_before);
}

#[test]
fn test_commands_are_noops_outside_playing() {
    let mut g = Game::new();
    g.curter = piece(0, 5, 5, 0, 1);
    for cmd in [
        Command::MoveLeft,
        Command::MoveRight,
        Command::MoveDown,
        Command::RotateClockwise,
    ] {
        let started = g.apply(cmd);
        assert!(!started);
        assert_eq!(g.state, GameState::Stopped);
        assert_eq!(g.curter.position, [5, 5]);
        assert_eq!(g.curter.direc, 0);
        assert_eq!(g.scores, 0);
    }
}

#[test]
fn test_apply_dispatches_while_playing() {
    let mut g = playing(piece(0, 5, 5, 0, 1));
    assert!(!g.apply(Command::MoveRight));
    assert_eq!(g.curter.position, [5, 6]);
    assert!(!g.apply(Command::MoveLeft));
    assert_eq!(g.curter.position, [5, 5]);
    assert!(!g.apply(Command::MoveDown));
    assert_eq!(g.curter.position, [6, 5]);
    assert!(!g.apply(Command::RotateClockwise));
    assert_eq!(g.curter.direc, 1);
    assert!(!g.apply(Command::TogglePauseOrStart));
    assert_eq!(g.state, GameState::Pausing);
}

#[test]
fn test_quadruple_line_clear_awards_160000() {
    // rows 16..20 are full except column 0; the I piece fills all four
    let mut g = {
        let mut g = Game::new();
        g.state = GameState::Playing;
        g.curter = Tetris { kind: 5, position: [10, 0], direc: 0, color: 2 };
        g.nxtter = Tetris { kind: 0, position: [-2, 5], direc: 0, color: 3 };
        g
    };
    for r in 16..20 {
        for c in 1..10 {
            g.blockes[r][c] = 7;
        }
    }
    for _ in 0..30 {
        if g.scores != 0 {
            break;
        }
        g.down();
    }
    assert_eq!(g.scores, 160000);
    // the whole board is empty again: the piece vanished with the rows
    for r in 0..20 {
        for c in 0..10 {
            assert_eq!(g.blockes[r][c], 0);
        }
    }
    assert_eq!(g.state, GameState::Playing);
}
