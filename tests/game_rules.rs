use tic_tac_toe::bitboard::{evaluate, is_cell_free, winning_line, Evaluation};
use tic_tac_toe::game::Game;
use tic_tac_toe::scheduler::{duration_from_turn, set_turn_expiration_schedule, Timestamp};
use tic_tac_toe::types::{CommandError, GameState, Identity, Player};

fn who(n: u128) -> Identity {
    Identity { high: 0, low: n }
}

fn fresh() -> Game {
    Game::new(who(1), who(2), "ABCDEFGH".to_string())
}

#[test]
fn lines_are_rows_columns_diagonals() {
    let expected: [u16; 8] = [
        0b000_000_111,
        0b000_111_000,
        0b111_000_000,
        0b001_001_001,
        0b010_010_010,
        0b100_100_100,
        0b100_010_001,
        0b001_010_100,
    ];
    for (i, m) in expected.iter().enumerate() {
        assert_eq!(winning_line(i), *m);
    }
}

#[test]
fn cell_free_checks_both_masks() {
    assert!(is_cell_free(0b000_000_001, 0b000_000_010, 0b000_000_100));
    assert!(!is_cell_free(0b000_000_001, 0b000_000_010, 0b000_000_001));
    assert!(!is_cell_free(0b000_000_001, 0b000_000_010, 0b000_000_010));
}

#[test]
fn evaluate_win_open_blocked() {
    assert_eq!(evaluate(0b000_000_111, 0b000_011_000), Evaluation::Win);
    assert_eq!(evaluate(0b100_010_001, 0b000_000_110), Evaluation::Win);
    assert_eq!(evaluate(0b000_000_001, 0b000_000_010), Evaluation::StillOpen);
    // X: 0,1,5,6,8  O: 2,3,4,7 -- full board, no line.
    assert_eq!(evaluate(0b101_100_011, 0b010_011_100), Evaluation::Blocked);
    assert_eq!(evaluate(0b010_011_100, 0b101_100_011), Evaluation::Blocked);
    assert_eq!(evaluate(0b110_001_101, 0b001_110_010), Evaluation::Blocked);
    // Eight stones, last cell 7 empty; column 1 holds only O.
    assert_eq!(evaluate(0b100_001_101, 0b001_110_010), Evaluation::StillOpen);
}

#[test]
fn new_game_starts_with_x_at_turn_zero() {
    let g = fresh();
    assert_eq!(g.turn_owner, Player::X);
    assert_eq!(g.turn, 0);
    assert_eq!(g.x_mask, 0);
    assert_eq!(g.o_mask, 0);
    assert_eq!(g.state, GameState::InProgress);
    assert!(!g.time_expired);
    assert!(g.game_in_progress());
    assert!(g.validate_turn_owner(who(1)));
    assert!(!g.validate_turn_owner(who(2)));
}

#[test]
fn two_moves_hand_turn_back_to_x() {
    let mut g = fresh();
    assert_eq!(g.apply_move(who(1), 0b000_000_001), Ok(()));
    assert_eq!(g.apply_move(who(2), 0b000_000_010), Ok(()));
    assert_eq!(g.turn, 2);
    assert_eq!(g.turn_owner, Player::X);
    assert_eq!(g.state, GameState::InProgress);
    assert_eq!(g.x_mask, 0b000_000_001);
    assert_eq!(g.o_mask, 0b000_000_010);
}

#[test]
fn completing_top_row_wins_for_x() {
    let mut g = fresh();
    g.apply_move(who(1), 0b000_000_001).unwrap();
    g.apply_move(who(2), 0b000_001_000).unwrap();
    g.apply_move(who(1), 0b000_000_010).unwrap();
    g.apply_move(who(2), 0b000_010_000).unwrap();
    g.apply_move(who(1), 0b000_000_100).unwrap();
    assert_eq!(g.x_mask, 0b000_000_111);
    assert_eq!(evaluate(g.x_mask, g.o_mask), Evaluation::Win);
    assert_eq!(g.state, GameState::Winner(Player::X));
    assert_eq!(g.turn, 4);
    assert_eq!(g.apply_move(who(2), 0b000_100_000), Err(CommandError::NotInProgress));
}

#[test]
fn wrong_participant_is_rejected_on_any_cell() {
    let mut g = fresh();
    for bit in 0..9u16 {
        assert_eq!(g.apply_move(who(2), 1 << bit), Err(CommandError::WrongTurn));
        assert_eq!(g.apply_move(who(7), 1 << bit), Err(CommandError::WrongTurn));
    }
    assert_eq!(g.x_mask, 0);
    assert_eq!(g.turn, 0);
    g.apply_move(who(1), 1).unwrap();
    assert_eq!(g.apply_move(who(1), 2), Err(CommandError::WrongTurn));
}

#[test]
fn occupied_cell_is_rejected_and_masks_kept() {
    let mut g = fresh();
    g.apply_move(who(1), 0b000_010_000).unwrap();
    assert_eq!(g.apply_move(who(2), 0b000_010_000), Err(CommandError::CellTaken));
    g.apply_move(who(2), 0b000_000_001).unwrap();
    assert_eq!(g.apply_move(who(1), 0b000_000_001), Err(CommandError::CellTaken));
    assert_eq!(g.apply_move(who(1), 0b000_010_000), Err(CommandError::CellTaken));
    assert_eq!(g.x_mask, 0b000_010_000);
    assert_eq!(g.o_mask, 0b000_000_001);
    assert_eq!(g.turn_owner, Player::X);
    assert_eq!(g.turn, 2);
}

#[test]
fn toggle_cell_marks_for_turn_owner() {
    let mut g = fresh();
    assert_eq!(g.toggle_cell(0b100_000_000), Ok(()));
    assert_eq!(g.x_mask, 0b100_000_000);
    assert_eq!(g.toggle_cell(0b100_000_000), Err(CommandError::CellTaken));
    g.turn_owner = Player::O;
    assert_eq!(g.toggle_cell(0b010_000_000), Ok(()));
    assert_eq!(g.o_mask, 0b010_000_000);
}

#[test]
fn full_board_without_line_is_a_draw() {
    let mut g = fresh();
    // X: 0,2,3,7,8  O: 1,4,5,6; column 1 stays open until X's last move.
    let order: [u16; 9] = [0, 1, 2, 4, 3, 5, 8, 6, 7];
    for (k, cell) in order.iter().enumerate() {
        let mover = if k % 2 == 0 { who(1) } else { who(2) };
        assert_eq!(g.state, GameState::InProgress);
        assert_eq!(g.apply_move(mover, 1 << cell), Ok(()));
    }
    assert_eq!(g.state, GameState::Draw);
    assert_eq!(g.x_mask | g.o_mask, 0b111_111_111);
}

#[test]
fn stale_timeout_changes_nothing() {
    let mut g = fresh();
    g.apply_move(who(1), 1).unwrap();
    g.apply_move(who(2), 2).unwrap();
    g.apply_move(who(1), 16).unwrap();
    g.apply_move(who(2), 4).unwrap();
    assert_eq!(g.turn, 4);
    assert!(!g.apply_timeout(3));
    assert_eq!(g.turn, 4);
    assert_eq!(g.turn_owner, Player::X);
    assert_eq!(g.state, GameState::InProgress);
    assert!(!g.time_expired);
}

#[test]
fn live_timeout_forfeits_the_turn() {
    let mut g = fresh();
    assert!(g.apply_timeout(0));
    assert_eq!(g.turn_owner, Player::O);
    assert_eq!(g.turn, 1);
    assert!(g.time_expired);
    assert_eq!(g.state, GameState::InProgress);
    assert!(!g.apply_timeout(0));
    assert_eq!(g.turn, 1);
    g.apply_move(who(2), 1).unwrap();
    assert!(!g.time_expired);
    assert_eq!(g.turn, 2);
}

#[test]
fn timeout_on_finished_game_is_ignored() {
    let mut g = fresh();
    g.apply_move(who(1), 1).unwrap();
    g.apply_move(who(2), 8).unwrap();
    g.apply_move(who(1), 2).unwrap();
    g.apply_move(who(2), 16).unwrap();
    g.apply_move(who(1), 4).unwrap();
    assert_eq!(g.state, GameState::Winner(Player::X));
    let turn = g.turn;
    assert!(!g.apply_timeout(turn));
    assert_eq!(g.turn, turn);
    assert_eq!(g.turn_owner, Player::X);
}

#[test]
fn turn_counter_wraps_after_255() {
    let mut g = fresh();
    g.turn = 255;
    g.turn_expired();
    assert_eq!(g.turn, 0);
    assert_eq!(g.turn_owner, Player::O);
}

#[test]
fn turn_durations_follow_schedule() {
    let expected: [i64; 10] = [
        5_000_000, 4_000_000, 3_000_000, 3_000_000, 2_000_000, 2_000_000, 1_500_000, 1_500_000,
        1_000_000, 1_000_000,
    ];
    for (n, d) in expected.iter().enumerate() {
        assert_eq!(duration_from_turn(n as u8), *d);
    }
    assert_eq!(duration_from_turn(200), 1_000_000);
    assert_eq!(duration_from_turn(255), 1_000_000);
    let mut last = duration_from_turn(0);
    for n in 1..=255u8 {
        let d = duration_from_turn(n);
        assert!(d <= last);
        last = d;
    }
}

#[test]
fn timeout_is_due_one_turn_length_later() {
    let now = Timestamp { micros_since_unix_epoch: 1_700_000_000_000_000 };
    let s = set_turn_expiration_schedule("ROOM".to_string(), 6, now);
    assert_eq!(s.game_id, "ROOM");
    assert_eq!(s.turn, 6);
    assert_eq!(s.scheduled_at.micros_since_unix_epoch, 1_700_000_001_500_000);
}
