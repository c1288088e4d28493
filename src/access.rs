//! Who may observe which record.

use vstd::prelude::*;

use crate::game::Game;
use crate::game_table::is_mover;
use crate::lobby::LobbyRoom;
use crate::types::Identity;

verus! {

/// A match is visible only to the two participants who play in it.
pub fn can_observe_game(participant: Identity, game: &Game) -> (r: bool)
    ensures
        r == is_mover(*game, participant),
{
    game.x_player == participant || game.o_player == participant
}

/// Open rooms are public listings: anyone may observe them.
pub fn can_observe_room(participant: Identity, room: &LobbyRoom) -> (r: bool)
    ensures
        r,
{
    true
}

} // verus!
