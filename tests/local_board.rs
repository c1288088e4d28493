use tic_tac_toe::board_data::{BoardData, GameResult};
use tic_tac_toe::types::Player;

#[test]
fn local_board_alternates_and_detects_win() {
    let mut b = BoardData::new();
    assert_eq!(b.turn_owner(), Player::X);
    assert_eq!(b.result(), None);
    b.mark_cell(0b000_000_001);
    assert_eq!(b.turn_owner(), Player::O);
    assert!(!b.cell_is_free(0b000_000_001));
    assert!(b.cell_is_free(0b000_000_010));
    b.mark_cell(0b000_001_000);
    b.mark_cell(0b000_010_000);
    b.mark_cell(0b000_000_010);
    b.mark_cell(0b100_000_000);
    assert_eq!(b.result(), Some(GameResult::Winner(Player::X)));
    assert_eq!(b.turn_owner(), Player::X);
}

#[test]
fn local_board_detects_draw() {
    let mut b = BoardData::new();
    for cell in [0u16, 1, 2, 4, 3, 5, 8, 6, 7] {
        assert_eq!(b.result(), None);
        b.mark_cell(1 << cell);
    }
    assert_eq!(b.result(), Some(GameResult::Draw));
}

#[test]
fn local_board_next_turn_flips() {
    let mut b = BoardData::new();
    b.next_turn();
    assert_eq!(b.turn_owner(), Player::O);
    b.next_turn();
    assert_eq!(b.turn_owner(), Player::X);
}

#[test]
fn result_banners() {
    assert_eq!(GameResult::Draw.as_ref(), "It's a DRAW!");
    assert_eq!(GameResult::Winner(Player::X).as_ref(), "Winner: X!");
    assert_eq!(GameResult::Winner(Player::O).as_ref(), "Winner: O!");
}
