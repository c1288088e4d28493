//! Session management for a two-player tic-tac-toe service: a bit-encoded
//! board, the per-match state machine, lobby matchmaking, turn expiration
//! scheduling and record visibility rules.

pub mod access;
pub mod bitboard;
pub mod board_data;
pub mod events;
pub mod game;
pub mod game_table;
pub mod lobby;
pub mod room_code;
pub mod scheduler;
pub mod types;
