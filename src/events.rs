//! Envelopes for the record changes and connection handles that the
//! transport layer hands to a client.

use vstd::prelude::*;

use crate::game::Game;
use crate::types::Player;

verus! {

/// A notification that came from the game server, as opposed to one raised
/// locally.
pub struct Stdb<E>(pub E);

/// A record was inserted.
pub struct OnInsert<Row>(pub Row);

/// A record was deleted.
pub struct OnDelete<Row>(pub Row);

/// A record was replaced: its value before and after the change.
pub struct OnUpdate<Row> {
    pub before: Row,
    pub after: Row,
}

/// The side that moved and the cells it gained, read from a match update in
/// which the turn passed by a move rather than by expiring.
pub open spec fn move_in_update(before: Game, after: Game) -> Option<(Player, u16)> {
    if before.turn_owner != after.turn_owner && !after.time_expired {
        let p = before.turn_owner;
        Some((p, before.mask_of(p) ^ after.mask_of(p)))
    } else {
        None
    }
}

/// The move that a match update shows, if the turn passed by a move.
pub fn marked_cell(update: &OnUpdate<Game>) -> (r: Option<(Player, u16)>)
    ensures
        r == move_in_update(update.before, update.after),
{
    if update.before.turn_owner != update.after.turn_owner && !update.after.time_expired {
        let p = update.before.turn_owner;
        let cells = match p {
            Player::X => update.before.x_mask ^ update.after.x_mask,
            Player::O => update.before.o_mask ^ update.after.o_mask,
        };
        Some((p, cells))
    } else {
        None
    }
}

/// A subscription was applied; it carries the records it matched.
pub struct OnSubApplied<T>(pub T);

/// The client's live connection to the game server.
pub struct NetworkConnection<C>(pub C);

impl<C> NetworkConnection<C> {
    /// Wraps an established connection.
    pub fn new(db_connection: C) -> (r: Self)
        ensures
            r.0 == db_connection,
    {
        NetworkConnection(db_connection)
    }
}

} // verus!
