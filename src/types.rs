//! Values shared by the session, lobby and scheduling components.

use vstd::prelude::*;

verus! {

/// The identity of a participant: a 256-bit value, held as two halves.
#[derive(Clone, Copy, Debug, PartialEq, Eq, Hash, Structural)]
pub struct Identity {
    pub high: u128,
    pub low: u128,
}

/// One of the two sides of a match. `X` always moves first.
#[derive(Clone, Copy, Debug, PartialEq, Eq, Hash, Structural)]
pub enum Player {
    X,
    O,
}

impl Player {
    /// The side that is not `self`.
    pub open spec fn other(self) -> Player {
        match self {
            Player::X => Player::O,
            Player::O => Player::X,
        }
    }

    /// The side that is not `self`.
    pub fn opponent(self) -> (r: Player)
        ensures
            r == self.other(),
    {
        match self {
            Player::X => Player::O,
            Player::O => Player::X,
        }
    }
}

/// The result of a match. Anything but `InProgress` is terminal.
#[derive(Clone, Copy, Debug, PartialEq, Eq, Hash, Structural)]
pub enum GameState {
    InProgress,
    Draw,
    Winner(Player),
}

/// Why a participant's command was rejected. A rejected command changes no
/// record.
#[derive(Clone, Copy, Debug, PartialEq, Eq, Hash, Structural)]
pub enum CommandError {
    /// The referenced room or match no longer exists.
    NotFound,
    /// A move was submitted against a finished match.
    NotInProgress,
    /// A move was submitted by the participant who does not hold the turn.
    WrongTurn,
    /// A move targets an occupied cell.
    CellTaken,
    /// The participant already owns an open room.
    AlreadyOwnsRoom,
    /// The participant tried to join the room they own.
    SelfJoin,
    /// The identifier of the new record is already used by a live one.
    DuplicateId,
}

} // verus!
