//! Scenario tests that drive the engine through whole turns.

use quoridor_core::error::ActionError;
use quoridor_core::game::{Game, GameState};

fn sorted(mut v: Vec<(i32, i32)>) -> Vec<(i32, i32)> {
    v.sort();
    v
}

#[test]
fn initial_valid_moves() {
    // Empty board, player 1 at (0,4), player 2 at (8,4), player 1 to move:
    // exactly the three on-board unit steps are legal.
    let game = Game::new();
    assert_eq!(game.player1.position, (0, 4));
    assert_eq!(game.player2.position, (8, 4));
    assert!(game.player1_turn);
    let moves = sorted(game.get_valid_moves());
    assert_eq!(moves, vec![(0, 3), (0, 5), (1, 4)]);
}

#[test]
fn valid_moves_are_pure() {
    // Enumerating moves mutates nothing: repeated calls agree and the
    // observable state stays put.
    let game = Game::new();
    let first = game.get_valid_moves();
    let second = game.get_valid_moves();
    assert_eq!(first, second);
    assert_eq!(game.player1.position, (0, 4));
    assert_eq!(game.player2.position, (8, 4));
    assert!(game.player1_turn);
    assert!(game.is_movable_at((4, 4), (0, 1)));
    assert!(game.is_movable_at((4, 4), (0, 1)));
    let again = game.get_valid_moves();
    assert_eq!(first, again);
}

#[test]
fn invalid_move_rejected_without_mutation() {
    let mut game = Game::new();
    let before_p1 = game.player1.position;
    let before_turn = game.player1_turn;
    assert_eq!(game.try_move(4, 4), Err(ActionError::InvalidMove));
    assert_eq!(game.player1.position, before_p1);
    assert_eq!(game.player1_turn, before_turn);
}

#[test]
fn committed_move_flips_turn_and_traces() {
    let mut game = Game::new();
    assert_eq!(game.try_move(1, 4), Ok(()));
    assert_eq!(game.player1.position, (1, 4));
    assert_eq!(game.player1.trace, vec![(0, 4), (1, 4)]);
    assert!(!game.player1_turn);
    // Now player 2 moves.
    assert_eq!(game.try_move(7, 4), Ok(()));
    assert_eq!(game.player2.position, (7, 4));
    assert!(game.player1_turn);
}

#[test]
fn jump_over_opponent() {
    let mut game = Game::new();
    // Walk the pawns face to face along row 4.
    let p1_cols = [1, 2, 3, 4];
    let p2_cols = [7, 6, 5];
    for i in 0..3 {
        assert_eq!(game.try_move(p1_cols[i], 4), Ok(()));
        assert_eq!(game.try_move(p2_cols[i], 4), Ok(()));
    }
    assert_eq!(game.player1.position, (3, 4));
    assert_eq!(game.player2.position, (5, 4));
    assert_eq!(game.try_move(4, 4), Ok(()));
    // Player 2 faces player 1 at (4,4): the straight jump to (3,4) is
    // offered instead of the occupied cell.
    let moves = sorted(game.get_valid_moves());
    assert_eq!(moves, vec![(3, 4), (5, 3), (5, 5), (6, 4)]);
    assert_eq!(game.try_move(3, 4), Ok(()));
    assert_eq!(game.player2.position, (3, 4));
}

#[test]
fn wall_blocks_movement() {
    let mut game = Game::new();
    // A vertical wall at (1,3) occupies slots (1,3) and (1,4): it blocks
    // movement between columns 0 and 1 on rows 3 and 4.
    assert_eq!(game.try_place_vertical_wall(1, 3), Ok(()));
    assert!(!game.is_movable_at((0, 4), (1, 0)));
    assert!(!game.is_movable_at((0, 3), (1, 0)));
    assert!(game.is_movable_at((0, 5), (1, 0)));
    // Player 2 placed nothing yet; it is their turn now.
    assert!(!game.player1_turn);
    assert_eq!(game.player1.walls, 9);
    assert_eq!(game.player2.walls, 10);
    // Player 1's eastward step is gone from the move list once the turn
    // comes back around.
    assert_eq!(game.try_move(7, 4), Ok(()));
    let moves = sorted(game.get_valid_moves());
    assert_eq!(moves, vec![(0, 3), (0, 5)]);
}

#[test]
fn wall_slots_become_occupied() {
    // A legal vertical wall on slots (3,2) and (3,3): the spot then stops
    // validating, and a second attempt is rejected as illegal.
    let mut game = Game::new();
    assert!(game.is_vertical_wall_ok_at(3, 2));
    assert_eq!(game.try_place_vertical_wall(3, 2), Ok(()));
    assert!(game.board.vertical_walls[3][2]);
    assert!(game.board.vertical_walls[3][3]);
    assert!(game.board.cross_walls[3][3]);
    assert!(!game.is_vertical_wall_ok_at(3, 2));
    assert_eq!(game.try_place_vertical_wall(3, 2), Err(ActionError::IllegalWallPlacement));
    // Overlapping one slot is just as illegal.
    assert!(!game.is_vertical_wall_ok_at(3, 3));
    assert!(!game.is_vertical_wall_ok_at(3, 1));
}

#[test]
fn crossing_walls_rejected() {
    let mut game = Game::new();
    assert_eq!(game.try_place_vertical_wall(4, 3), Ok(()));
    // A horizontal wall crossing through the midpoint of that wall shares
    // its cross marker at (4,4).
    assert!(!game.is_horizontal_wall_ok_at(3, 4));
    assert_eq!(game.try_place_horizontal_wall(3, 4), Err(ActionError::IllegalWallPlacement));
    // One step away it does not cross.
    assert!(game.is_horizontal_wall_ok_at(5, 4));
    assert_eq!(game.try_place_horizontal_wall(5, 4), Ok(()));
}

#[test]
fn trap_rejected_and_state_restored() {
    // Build a box around player 2 at (8,4); the closing wall must be
    // rejected with TrapViolation and leave the grids bit-for-bit intact.
    let mut game = Game::new();
    assert_eq!(game.try_place_vertical_wall(8, 3), Ok(()));
    assert_eq!(game.try_place_vertical_wall(8, 5), Ok(()));
    assert_eq!(game.try_place_horizontal_wall(7, 3), Ok(()));
    let vertical_before = game.board.vertical_walls.clone();
    let horizontal_before = game.board.horizontal_walls.clone();
    let cross_before = game.board.cross_walls.clone();
    let turn_before = game.player1_turn;
    let walls_before = (game.player1.walls, game.player2.walls);
    assert_eq!(game.try_place_horizontal_wall(7, 7), Err(ActionError::TrapViolation));
    assert_eq!(game.board.vertical_walls, vertical_before);
    assert_eq!(game.board.horizontal_walls, horizontal_before);
    assert_eq!(game.board.cross_walls, cross_before);
    assert_eq!(game.player1_turn, turn_before);
    assert_eq!((game.player1.walls, game.player2.walls), walls_before);
    // Both players still reach their goal edges afterwards.
    assert!(game.dfs(game.player1.position, 8));
    assert!(game.dfs(game.player2.position, 0));
}

#[test]
fn self_trap_rejected() {
    // The no-trap rule protects the wall placer too: boxing in player 1's
    // own pawn is rejected the same way.
    let mut game = Game::new();
    assert_eq!(game.try_place_vertical_wall(1, 3), Ok(()));
    assert_eq!(game.try_place_vertical_wall(1, 5), Ok(()));
    assert_eq!(game.try_place_horizontal_wall(0, 3), Ok(()));
    assert_eq!(game.try_place_horizontal_wall(0, 7), Err(ActionError::TrapViolation));
    assert!(game.dfs(game.player1.position, 8));
    assert!(game.dfs(game.player2.position, 0));
}

#[test]
fn invariant_bounds_across_sequence() {
    // Wall stocks never go negative and pawns never leave the board, no
    // matter which actions are attempted.
    let mut game = Game::new();
    let actions: [(&str, i32, i32); 12] = [
        ("move", 1, 4),
        ("move", 7, 4),
        ("vwall", 4, 4),
        ("move", 2, 4),
        ("hwall", 3, 3),
        ("move", -1, 0),
        ("vwall", 4, 4),
        ("move", 6, 4),
        ("undo", 0, 0),
        ("move", 6, 4),
        ("vwall", 0, 0),
        ("hwall", 9, 9),
    ];
    for &(kind, x, y) in actions.iter() {
        match kind {
            "move" => {
                let _ = game.try_move(x, y);
            }
            "vwall" => {
                let _ = game.try_place_vertical_wall(x as usize, y as usize);
            }
            "hwall" => {
                let _ = game.try_place_horizontal_wall(x as usize, y as usize);
            }
            _ => {
                let _ = game.undo();
            }
        }
        for p in [&game.player1, &game.player2] {
            assert!(p.walls <= 10);
            assert!((0..=8).contains(&p.position.0));
            assert!((0..=8).contains(&p.position.1));
        }
    }
}

#[test]
fn no_walls_remaining_rejected() {
    let mut game = Game::new();
    // Drain player 1's ten walls; player 2 mirrors with moves.
    let spots = [(1, 0), (1, 2), (1, 4), (1, 6), (3, 0), (3, 2), (3, 4), (3, 6), (5, 0), (5, 2)];
    for (i, &(x, y)) in spots.iter().enumerate() {
        assert_eq!(game.try_place_vertical_wall(x, y), Ok(()), "wall {} failed", i);
        // Player 2 shuffles back and forth without ending the game.
        let to = if i % 2 == 0 { (7, 4) } else { (8, 4) };
        assert_eq!(game.try_move(to.0, to.1), Ok(()));
    }
    assert_eq!(game.player1.walls, 0);
    assert_eq!(game.try_place_vertical_wall(5, 4), Err(ActionError::NoWallsRemaining));
    assert_eq!(game.try_place_horizontal_wall(2, 5), Err(ActionError::NoWallsRemaining));
}

#[test]
fn win_transition_and_terminal_rejections() {
    // Player 1 walks to column 8; the game ends the instant it arrives,
    // and every further action is rejected without mutation.
    let mut game = Game::new();
    let p1_path = [(1, 4), (2, 4), (3, 4), (4, 4), (5, 4), (6, 4), (7, 4)];
    let p2_path = [(8, 3), (8, 4), (8, 3), (8, 4), (8, 3), (8, 4), (8, 3)];
    for i in 0..7 {
        assert_eq!(game.try_move(p1_path[i].0, p1_path[i].1), Ok(()));
        assert_eq!(game.try_move(p2_path[i].0, p2_path[i].1), Ok(()));
    }
    assert_eq!(game.state, GameState::Playing);
    assert_eq!((game.player1.position, game.player2.position), ((7, 4), (8, 3)));
    assert_eq!(game.try_move(8, 4), Ok(()));
    assert_eq!(game.state, GameState::GameOver);
    assert!(game.did_player1_win());
    // Terminal state rejects moves, walls and undo, and mutates nothing.
    let pos = (game.player1.position, game.player2.position);
    let walls = game.board.vertical_walls.clone();
    assert_eq!(game.try_move(7, 5), Err(ActionError::GameAlreadyOver));
    assert_eq!(game.try_place_vertical_wall(4, 4), Err(ActionError::GameAlreadyOver));
    assert_eq!(game.undo(), Err(ActionError::GameAlreadyOver));
    assert_eq!((game.player1.position, game.player2.position), pos);
    assert_eq!(game.board.vertical_walls, walls);
    // Restart is still available.
    game.restart();
    assert_eq!(game.state, GameState::Playing);
    assert_eq!(game.player1.position, (0, 4));
}

#[test]
fn player2_wins_on_column_zero() {
    let mut game = Game::new();
    let p1_path = [(0, 3), (0, 2), (0, 3), (0, 2), (0, 3), (0, 2), (0, 3), (0, 2)];
    let p2_path = [(7, 4), (6, 4), (5, 4), (4, 4), (3, 4), (2, 4), (1, 4), (0, 4)];
    for i in 0..7 {
        assert_eq!(game.try_move(p1_path[i].0, p1_path[i].1), Ok(()));
        assert_eq!(game.try_move(p2_path[i].0, p2_path[i].1), Ok(()));
        assert_eq!(game.state, GameState::Playing);
    }
    assert_eq!(game.try_move(0, 2), Ok(()));
    assert_eq!(game.try_move(0, 4), Ok(()));
    assert_eq!(game.state, GameState::GameOver);
    assert!(game.did_player2_win());
}

#[test]
fn undo_restores_move() {
    let mut game = Game::new();
    assert_eq!(game.try_move(1, 4), Ok(()));
    assert_eq!(game.undo(), Ok(()));
    assert_eq!(game.player1.position, (0, 4));
    assert_eq!(game.player1.trace, vec![(0, 4)]);
    assert_eq!(game.player1.walls, 10);
    assert!(game.player1_turn);
    assert_eq!(game.state, GameState::Playing);
}

#[test]
fn undo_restores_wall() {
    let mut game = Game::new();
    assert_eq!(game.try_move(1, 4), Ok(()));
    assert_eq!(game.try_place_vertical_wall(4, 4), Ok(()));
    assert_eq!(game.undo(), Ok(()));
    assert!(!game.board.vertical_walls[4][4]);
    assert!(!game.board.vertical_walls[4][5]);
    assert!(!game.board.cross_walls[4][5]);
    assert_eq!(game.player2.walls, 10);
    assert!(!game.player1_turn);
    assert_eq!(game.player1.position, (1, 4));
}

#[test]
fn undo_is_single_level() {
    let mut game = Game::new();
    assert_eq!(game.try_move(1, 4), Ok(()));
    assert_eq!(game.try_move(7, 4), Ok(()));
    assert_eq!(game.undo(), Ok(()));
    assert_eq!(game.player2.position, (8, 4));
    assert_eq!(game.player1.position, (1, 4));
    // A second undo restores the same snapshot: no further effect.
    assert_eq!(game.undo(), Ok(()));
    assert_eq!(game.player2.position, (8, 4));
    assert_eq!(game.player1.position, (1, 4));
}

#[test]
fn clock_is_snapshotted() {
    let mut game = Game::new();
    game.add_clock_millis(1500);
    assert_eq!(game.clock, 1500);
    assert_eq!(game.try_move(1, 4), Ok(()));
    game.add_clock_millis(700);
    assert_eq!(game.clock, 2200);
    assert_eq!(game.undo(), Ok(()));
    assert_eq!(game.clock, 1500);
    game.add_clock_millis(u64::MAX);
    assert_eq!(game.clock, u64::MAX);
}

#[test]
fn restart_resets_everything() {
    let mut game = Game::new();
    assert_eq!(game.try_move(1, 4), Ok(()));
    assert_eq!(game.try_place_vertical_wall(4, 4), Ok(()));
    game.add_clock_millis(999);
    game.restart();
    assert_eq!(game.player1.position, (0, 4));
    assert_eq!(game.player2.position, (8, 4));
    assert_eq!(game.player1.walls, 10);
    assert_eq!(game.player2.walls, 10);
    assert_eq!(game.clock, 0);
    assert!(game.player1_turn);
    assert!(!game.board.vertical_walls[4][4]);
    // Undo directly after a restart restores the fresh starting position.
    assert_eq!(game.undo(), Ok(()));
    assert_eq!(game.player1.position, (0, 4));
    assert!(game.player1_turn);
}

#[test]
fn reachability_on_fresh_board() {
    let game = Game::new();
    assert!(game.dfs((0, 4), 8));
    assert!(game.dfs((8, 4), 0));
    assert!(game.dfs((4, 4), 8));
    assert!(game.dfs((0, 0), 8));
    // A pawn already on its goal column trivially reaches it.
    assert!(game.dfs((8, 2), 8));
    assert!(game.dfs((0, 7), 0));
}
