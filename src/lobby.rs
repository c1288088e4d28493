//! Matchmaking: open rooms waiting for a second participant, and the
//! commands that create, join and leave them.

use vstd::prelude::*;

use crate::game::Game;
use crate::game_table::{arms, without_mover, GameTable};
use crate::room_code::{code_of, room_code, CODE_LEN};
use crate::scheduler::{schedulable, set_turn_expiration_schedule, GameDurationTimeSchedule, Timestamp};
use crate::types::{CommandError, Identity};

verus! {

/// A room waiting for a second participant.
#[derive(Clone, Debug)]
pub struct LobbyRoom {
    /// The room's number, assigned by the store.
    pub id: u32,
    /// The shareable code, which becomes the match's identifier.
    pub game_id: String,
    /// The participant who opened the room.
    pub owner: Identity,
}

/// The open rooms, with the number the next room will get.
pub struct LobbyRoomTable {
    pub rooms: Vec<LobbyRoom>,
    pub next_id: u32,
}

impl LobbyRoomTable {
    /// Numbers, codes and owners are each unique, and every number is below
    /// the next one to be assigned.
    pub open spec fn wf(&self) -> bool {
        &&& forall|i: int, j: int|
            0 <= i < j < self.rooms@.len() ==> #[trigger] self.rooms@[i].id != #[trigger] self.rooms@[j].id
        &&& forall|i: int, j: int|
            0 <= i < j < self.rooms@.len() ==> #[trigger] self.rooms@[i].owner
                != #[trigger] self.rooms@[j].owner
        &&& forall|i: int, j: int|
            0 <= i < j < self.rooms@.len() ==> #[trigger] self.rooms@[i].game_id@
                != #[trigger] self.rooms@[j].game_id@
        &&& forall|i: int| 0 <= i < self.rooms@.len() ==> #[trigger] self.rooms@[i].id < self.next_id
    }

    /// `p` owns an open room.
    pub open spec fn has_owner(&self, p: Identity) -> bool {
        exists|i: int| 0 <= i < self.rooms@.len() && #[trigger] self.rooms@[i].owner == p
    }

    /// An open room has the code `code`.
    pub open spec fn has_code(&self, code: Seq<char>) -> bool {
        exists|i: int| 0 <= i < self.rooms@.len() && #[trigger] self.rooms@[i].game_id@ == code
    }

    /// The position of room number `id`, if it is open.
    pub open spec fn position(&self, id: u32) -> Option<int> {
        if exists|i: int| 0 <= i < self.rooms@.len() && #[trigger] self.rooms@[i].id == id {
            Some(choose|i: int| 0 <= i < self.rooms@.len() && #[trigger] self.rooms@[i].id == id)
        } else {
            None
        }
    }

    /// The position of the room owned by `p`, if there is one.
    pub open spec fn owner_position(&self, p: Identity) -> Option<int> {
        if self.has_owner(p) {
            Some(choose|i: int| 0 <= i < self.rooms@.len() && #[trigger] self.rooms@[i].owner == p)
        } else {
            None
        }
    }

    /// No open room; the first one will be number 1.
    pub fn new() -> (t: LobbyRoomTable)
        ensures
            t.rooms@.len() == 0,
            t.next_id == 1,
            t.wf(),
    {
        LobbyRoomTable { rooms: Vec::new(), next_id: 1 }
    }

    /// The position of room number `id`.
    pub fn find(&self, id: u32) -> (r: Option<usize>)
        requires
            self.wf(),
        ensures
            match r {
                Some(i) => self.position(id) == Some(i as int) && i < self.rooms@.len(),
                None => self.position(id) == None::<int>,
            },
    {
        let mut i: usize = 0;
        while i < self.rooms.len()
            invariant
                self.wf(),
                i <= self.rooms@.len(),
                forall|j: int| 0 <= j < i ==> #[trigger] self.rooms@[j].id != id,
            decreases self.rooms@.len() - i,
        {
            if self.rooms[i].id == id {
                proof {
                    let k = choose|k: int|
                        0 <= k < self.rooms@.len() && #[trigger] self.rooms@[k].id == id;
                    if k < i as int {
                        assert(self.rooms@[k].id != self.rooms@[i as int].id);
                    } else if (i as int) < k {
                        assert(self.rooms@[i as int].id != self.rooms@[k].id);
                    }
                }
                return Some(i);
            }
            i += 1;
        }
        None
    }

    /// The position of the room owned by `p`.
    pub fn find_owner(&self, p: Identity) -> (r: Option<usize>)
        requires
            self.wf(),
        ensures
            match r {
                Some(i) => self.owner_position(p) == Some(i as int) && i < self.rooms@.len(),
                None => self.owner_position(p) == None::<int>,
            },
    {
        let mut i: usize = 0;
        while i < self.rooms.len()
            invariant
                self.wf(),
                i <= self.rooms@.len(),
                forall|j: int| 0 <= j < i ==> #[trigger] self.rooms@[j].owner != p,
            decreases self.rooms@.len() - i,
        {
            if self.rooms[i].owner == p {
                proof {
                    assert(self.has_owner(p));
                    let k = choose|k: int|
                        0 <= k < self.rooms@.len() && #[trigger] self.rooms@[k].owner == p;
                    if k < i as int {
                        assert(self.rooms@[k].owner != self.rooms@[i as int].owner);
                    } else if (i as int) < k {
                        assert(self.rooms@[i as int].owner != self.rooms@[k].owner);
                    }
                }
                return Some(i);
            }
            i += 1;
        }
        None
    }

    /// Deletes the room at position `i`.
    pub fn remove_at(&mut self, i: usize)
        requires
            old(self).wf(),
            i < old(self).rooms@.len(),
        ensures
            final(self).wf(),
            final(self).rooms@ == old(self).rooms@.remove(i as int),
            final(self).next_id == old(self).next_id,
    {
        let ghost before = self.rooms@;
        self.rooms.remove(i);
        let ghost after = self.rooms@;
        assert forall|a: int, b: int| 0 <= a < b < after.len() implies {
            &&& after[a].id != after[b].id
            &&& after[a].owner != after[b].owner
            &&& after[a].game_id@ != after[b].game_id@
        } by {
            let oa = if a < i {
                a
            } else {
                a + 1
            };
            let ob = if b < i {
                b
            } else {
                b + 1
            };
            assert(after[a] == before[oa]);
            assert(after[b] == before[ob]);
        }
        assert forall|a: int| 0 <= a < after.len() implies #[trigger] after[a].id < self.next_id by {
            if a >= i {
                assert(after[a] == before[a + 1]);
            }
        }
    }

    /// Adds `room`, whose number, owner and code are all new.
    fn push_new(&mut self, room: LobbyRoom)
        requires
            old(self).wf(),
            old(self).next_id < u32::MAX,
            room.id == old(self).next_id,
            !old(self).has_owner(room.owner),
            !old(self).has_code(room.game_id@),
        ensures
            final(self).wf(),
            final(self).rooms@ == old(self).rooms@.push(room),
            final(self).next_id == old(self).next_id + 1,
    {
        let ghost before = self.rooms@;
        self.rooms.push(room);
        self.next_id = self.next_id + 1;
        let ghost after = self.rooms@;
        assert forall|a: int, b: int| 0 <= a < b < after.len() implies {
            &&& after[a].id != after[b].id
            &&& after[a].owner != after[b].owner
            &&& after[a].game_id@ != after[b].game_id@
        } by {
            assert(after[a] == before[a]);
            if b < before.len() {
                assert(after[b] == before[b]);
            } else {
                assert(before[a].id < old(self).next_id);
            }
        }
    }

    /// Whether an open room has the code `code`.
    pub fn code_in_use(&self, code: &String) -> (r: bool)
        ensures
            r == self.has_code(code@),
    {
        let mut i: usize = 0;
        while i < self.rooms.len()
            invariant
                i <= self.rooms@.len(),
                forall|j: int| 0 <= j < i ==> #[trigger] self.rooms@[j].game_id@ != code@,
            decreases self.rooms@.len() - i,
        {
            if self.rooms[i].game_id == *code {
                return true;
            }
            i += 1;
        }
        false
    }
}

/// Handles `sender` opening a room whose code is drawn from the random bytes
/// `code_bytes`. Rejected if `sender` already owns a room, or if an open room
/// already has that code; otherwise the room gets the next number, which is
/// returned.
pub fn create_room(rooms: &mut LobbyRoomTable, sender: Identity, code_bytes: &[u8; CODE_LEN]) -> (r:
    Result<u32, CommandError>)
    requires
        old(rooms).wf(),
        old(rooms).next_id < u32::MAX,
    ensures
        final(rooms).wf(),
        old(rooms).has_owner(sender) ==> r == Err::<u32, CommandError>(CommandError::AlreadyOwnsRoom),
        !old(rooms).has_owner(sender) && old(rooms).has_code(code_of(code_bytes@)) ==> r == Err::<
            u32,
            CommandError,
        >(CommandError::DuplicateId),
        r is Err ==> final(rooms).rooms@ == old(rooms).rooms@ && final(rooms).next_id == old(
            rooms,
        ).next_id,
        !old(rooms).has_owner(sender) && !old(rooms).has_code(code_of(code_bytes@)) ==> {
            let room = final(rooms).rooms@.last();
            &&& r == Ok::<u32, CommandError>(old(rooms).next_id)
            &&& final(rooms).rooms@.drop_last() == old(rooms).rooms@
            &&& final(rooms).rooms@.len() == old(rooms).rooms@.len() + 1
            &&& room.id == old(rooms).next_id
            &&& room.game_id@ == code_of(code_bytes@)
            &&& room.owner == sender
            &&& final(rooms).next_id == old(rooms).next_id + 1
        },
{
    if let Some(_) = rooms.find_owner(sender) {
        return Err(CommandError::AlreadyOwnsRoom);
    }
    let code = room_code(code_bytes);
    if rooms.code_in_use(&code) {
        return Err(CommandError::DuplicateId);
    }
    let id = rooms.next_id;
    rooms.push_new(LobbyRoom { id, game_id: code, owner: sender });
    assert(rooms.rooms@.drop_last() =~= old(rooms).rooms@);
    Ok(id)
}

/// Handles `sender` joining room number `room_id` at `now`. Rejected if the
/// room is not open, if `sender` owns it, or if a live match already has its
/// code. Otherwise the room becomes a match, with its owner playing `X`, and
/// the timeout for turn 0 is returned.
pub fn join_game(
    rooms: &mut LobbyRoomTable,
    games: &mut GameTable,
    sender: Identity,
    room_id: u32,
    now: Timestamp,
) -> (r: Result<GameDurationTimeSchedule, CommandError>)
    requires
        old(rooms).wf(),
        old(games).wf(),
        schedulable(now),
    ensures
        final(rooms).wf(),
        final(games).wf(),
        final(rooms).next_id == old(rooms).next_id,
        match old(rooms).position(room_id) {
            None => r == Err::<GameDurationTimeSchedule, CommandError>(CommandError::NotFound),
            Some(i) => {
                let room = old(rooms).rooms@[i];
                if room.owner == sender {
                    r == Err::<GameDurationTimeSchedule, CommandError>(CommandError::SelfJoin)
                } else if old(games).has_id(room.game_id@) {
                    r == Err::<GameDurationTimeSchedule, CommandError>(CommandError::DuplicateId)
                } else {
                    &&& final(rooms).rooms@ == old(rooms).rooms@.remove(i)
                    &&& final(games).games@ == old(games).games@.push(
                        Game::fresh(room.owner, sender, room.game_id),
                    )
                    &&& match r {
                        Ok(s) => arms(s, room.game_id@, 0, now),
                        Err(_) => false,
                    }
                }
            },
        },
        r is Err ==> final(rooms).rooms@ == old(rooms).rooms@ && final(games).games@ == old(
            games,
        ).games@,
{
    let i = match rooms.find(room_id) {
        Some(i) => i,
        None => return Err(CommandError::NotFound),
    };
    if rooms.rooms[i].owner == sender {
        return Err(CommandError::SelfJoin);
    }
    let owner = rooms.rooms[i].owner;
    let game_id = rooms.rooms[i].game_id.clone();
    games.insert(Game::new(owner, sender, game_id.clone()))?;
    rooms.remove_at(i);
    Ok(set_turn_expiration_schedule(game_id, 0, now))
}

/// Handles `sender` leaving the lobby: the room they own, if any, is deleted.
pub fn leave_room(rooms: &mut LobbyRoomTable, sender: Identity)
    requires
        old(rooms).wf(),
    ensures
        final(rooms).wf(),
        final(rooms).next_id == old(rooms).next_id,
        match old(rooms).owner_position(sender) {
            Some(i) => final(rooms).rooms@ == old(rooms).rooms@.remove(i),
            None => final(rooms).rooms@ == old(rooms).rooms@,
        },
{
    if let Some(i) = rooms.find_owner(sender) {
        rooms.remove_at(i);
    }
}

/// Handles `sender` disconnecting: the room they own and every match they
/// play in are deleted.
pub fn identity_disconnected(rooms: &mut LobbyRoomTable, games: &mut GameTable, sender: Identity)
    requires
        old(rooms).wf(),
        old(games).wf(),
    ensures
        final(rooms).wf(),
        final(games).wf(),
        final(rooms).next_id == old(rooms).next_id,
        match old(rooms).owner_position(sender) {
            Some(i) => final(rooms).rooms@ == old(rooms).rooms@.remove(i),
            None => final(rooms).rooms@ == old(rooms).rooms@,
        },
        final(games).games@ == without_mover(old(games).games@, sender),
{
    leave_room(rooms, sender);
    games.remove_games_of(sender);
}

} // verus!
