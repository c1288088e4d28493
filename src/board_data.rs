//! A board for two players sharing one screen: the same rules as a match,
//! without participants, turn numbers or timeouts.

use vstd::prelude::*;

use crate::bitboard::{cell_free, evaluate, evaluation_of, is_cell_free, Evaluation};
use crate::types::Player;

verus! {

/// How a local game ended.
#[derive(Clone, Copy, Debug, PartialEq, Eq, Structural)]
pub enum GameResult {
    Draw,
    Winner(Player),
}

impl GameResult {
    /// The banner shown for this result.
    pub open spec fn banner(self) -> Seq<char> {
        match self {
            GameResult::Draw => "It's a DRAW!"@,
            GameResult::Winner(Player::X) => "Winner: X!"@,
            GameResult::Winner(Player::O) => "Winner: O!"@,
        }
    }

    /// The banner shown for this result.
    pub fn as_ref(&self) -> (r: &'static str)
        ensures
            r@ == self.banner(),
    {
        match self {
            GameResult::Draw => "It's a DRAW!",
            GameResult::Winner(player) => match player {
                Player::X => "Winner: X!",
                Player::O => "Winner: O!",
            },
        }
    }
}

/// The state of a local game; `result` is `None` while it is played.
pub struct BoardData {
    pub turn_owner: Player,
    pub x_mask: u16,
    pub o_mask: u16,
    pub result: Option<GameResult>,
}

impl BoardData {
    /// The cells held by the side to move.
    pub open spec fn own_mask(&self) -> u16 {
        match self.turn_owner {
            Player::X => self.x_mask,
            Player::O => self.o_mask,
        }
    }

    /// The cells held by the side waiting.
    pub open spec fn opponent_mask(&self) -> u16 {
        match self.turn_owner {
            Player::X => self.o_mask,
            Player::O => self.x_mask,
        }
    }

    /// The board once the side to move has been evaluated: it wins, the game
    /// is drawn, or the turn passes.
    pub open spec fn after_check(self) -> BoardData {
        match evaluation_of(self.own_mask(), self.opponent_mask()) {
            Evaluation::Win => BoardData { result: Some(GameResult::Winner(self.turn_owner)), ..self },
            Evaluation::Blocked => BoardData { result: Some(GameResult::Draw), ..self },
            Evaluation::StillOpen => BoardData { turn_owner: self.turn_owner.other(), ..self },
        }
    }

    /// The board after the side to move gains `cell`.
    pub open spec fn with_cell(self, cell: u16) -> BoardData {
        match self.turn_owner {
            Player::X => BoardData { x_mask: self.x_mask | cell, ..self },
            Player::O => BoardData { o_mask: self.o_mask | cell, ..self },
        }
    }

    /// An empty board with `X` to move.
    pub fn new() -> (b: BoardData)
        ensures
            b.turn_owner == Player::X,
            b.x_mask == 0,
            b.o_mask == 0,
            b.result == None::<GameResult>,
    {
        BoardData { turn_owner: Player::X, x_mask: 0, o_mask: 0, result: None }
    }

    pub fn turn_owner(&self) -> (r: Player)
        ensures
            r == self.turn_owner,
    {
        self.turn_owner
    }

    pub fn result(&self) -> (r: Option<GameResult>)
        ensures
            r == self.result,
    {
        self.result
    }

    /// Passes the turn to the other side.
    pub fn next_turn(&mut self)
        ensures
            *final(self) == (BoardData { turn_owner: old(self).turn_owner.other(), ..*old(self) }),
    {
        self.turn_owner = self.turn_owner.opponent();
    }

    /// Marks `cell` for the side to move and evaluates the board.
    pub fn mark_cell(&mut self, cell_mask: u16)
        ensures
            *final(self) == old(self).with_cell(cell_mask).after_check(),
    {
        match self.turn_owner {
            Player::X => self.x_mask = self.x_mask | cell_mask,
            Player::O => self.o_mask = self.o_mask | cell_mask,
        }
        self.check_winner();
    }

    /// Evaluates the board for the side to move.
    pub fn check_winner(&mut self)
        ensures
            *final(self) == old(self).after_check(),
    {
        let (own, opponent) = match self.turn_owner {
            Player::X => (self.x_mask, self.o_mask),
            Player::O => (self.o_mask, self.x_mask),
        };
        match evaluate(own, opponent) {
            Evaluation::Win => self.result = Some(GameResult::Winner(self.turn_owner)),
            Evaluation::Blocked => self.result = Some(GameResult::Draw),
            Evaluation::StillOpen => self.next_turn(),
        }
    }

    /// Whether neither side holds `cell_mask`.
    pub fn cell_is_free(&self, cell_mask: u16) -> (r: bool)
        ensures
            r == cell_free(self.x_mask, self.o_mask, cell_mask),
    {
        is_cell_free(self.x_mask, self.o_mask, cell_mask)
    }
}

} // verus!
