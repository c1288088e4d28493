//! The keyed store of live matches and the commands that act on one match.

use vstd::prelude::*;

use crate::game::Game;
use crate::scheduler::{
    schedulable, set_turn_expiration_schedule, turn_duration, GameDurationTimeSchedule, Timestamp,
};
use crate::types::{CommandError, Identity};

verus! {

/// `s` is the timeout for turn `turn` of match `game_id`, armed at `now`.
pub open spec fn arms(s: GameDurationTimeSchedule, game_id: Seq<char>, turn: u8, now: Timestamp) -> bool {
    &&& s.game_id@ == game_id
    &&& s.turn == turn
    &&& s.scheduled_at.micros_since_unix_epoch == now.micros_since_unix_epoch + turn_duration(turn)
}

/// `p` plays in match `g`.
pub open spec fn is_mover(g: Game, p: Identity) -> bool {
    g.x_player == p || g.o_player == p
}

/// The matches of `s` in which `p` does not play, in their order.
pub open spec fn without_mover(s: Seq<Game>, p: Identity) -> Seq<Game>
    decreases s.len(),
{
    if s.len() == 0 {
        Seq::empty()
    } else {
        let r = without_mover(s.drop_last(), p);
        if is_mover(s.last(), p) {
            r
        } else {
            r.push(s.last())
        }
    }
}

/// The live matches, at most one per identifier.
pub struct GameTable {
    pub games: Vec<Game>,
}

impl GameTable {
    /// No two matches share an identifier.
    pub open spec fn wf(&self) -> bool {
        forall|i: int, j: int|
            0 <= i < j < self.games@.len() ==> #[trigger] self.games@[i].id@
                != #[trigger] self.games@[j].id@
    }

    /// A match with identifier `id` is live.
    pub open spec fn has_id(&self, id: Seq<char>) -> bool {
        exists|i: int| 0 <= i < self.games@.len() && #[trigger] self.games@[i].id@ == id
    }

    /// The position of the match with identifier `id`, if it is live.
    pub open spec fn position(&self, id: Seq<char>) -> Option<int> {
        if self.has_id(id) {
            Some(choose|i: int| 0 <= i < self.games@.len() && #[trigger] self.games@[i].id@ == id)
        } else {
            None
        }
    }

    /// In a well-formed store the match at `i` is the one `position` names.
    pub proof fn lemma_position(&self, i: int)
        requires
            self.wf(),
            0 <= i < self.games@.len(),
        ensures
            self.position(self.games@[i].id@) == Some(i),
    {
        let id = self.games@[i].id@;
        assert(self.has_id(id));
        let k = choose|k: int| 0 <= k < self.games@.len() && #[trigger] self.games@[k].id@ == id;
        if k < i {
            assert(self.games@[k].id@ != self.games@[i].id@);
        } else if i < k {
            assert(self.games@[i].id@ != self.games@[k].id@);
        }
    }

    /// Adds `g`, unless a live match already has its identifier.
    pub fn insert(&mut self, g: Game) -> (r: Result<(), CommandError>)
        requires
            old(self).wf(),
        ensures
            final(self).wf(),
            old(self).has_id(g.id@) ==> r == Err::<(), CommandError>(CommandError::DuplicateId)
                && final(self).games@ == old(self).games@,
            !old(self).has_id(g.id@) ==> r == Ok::<(), CommandError>(()) && final(self).games@
                == old(self).games@.push(g),
    {
        if let Some(_) = self.find(&g.id) {
            return Err(CommandError::DuplicateId);
        }
        self.games.push(g);
        Ok(())
    }

    /// Deletes the match at position `i`.
    pub fn remove_at(&mut self, i: usize)
        requires
            old(self).wf(),
            i < old(self).games@.len(),
        ensures
            final(self).wf(),
            final(self).games@ == old(self).games@.remove(i as int),
    {
        self.games.remove(i);
    }

    /// Deletes every match in which `p` plays.
    pub fn remove_games_of(&mut self, p: Identity)
        requires
            old(self).wf(),
        ensures
            final(self).wf(),
            final(self).games@ == without_mover(old(self).games@, p),
    {
        let ghost start = self.games@;
        let mut kept: Vec<Game> = Vec::new();
        let mut rest: Vec<Game> = Vec::new();
        std::mem::swap(&mut self.games, &mut rest);
        let mut i: usize = 0;
        let n = rest.len();
        while i < n
            invariant
                n == start.len(),
                rest@ == start.subrange(i as int, n as int),
                i <= n,
                kept@ == without_mover(start.subrange(0, i as int), p),
                forall|a: int, b: int|
                    0 <= a < b < start.len() ==> #[trigger] start[a].id@ != #[trigger] start[b].id@,
                forall|k: int|
                    0 <= k < kept@.len() ==> exists|j: int|
                        0 <= j < i && #[trigger] start[j] == #[trigger] kept@[k],
                forall|a: int, b: int|
                    0 <= a < b < kept@.len() ==> #[trigger] kept@[a].id@ != #[trigger] kept@[b].id@,
            decreases n - i,
        {
            let g = rest.remove(0);
            assert(g == start[i as int]);
            assert(start.subrange(0, i + 1).drop_last() =~= start.subrange(0, i as int));
            if !(g.x_player == p || g.o_player == p) {
                proof {
                    assert forall|k: int| 0 <= k < kept@.len() implies kept@[k].id@ != g.id@ by {
                        let j = choose|j: int| 0 <= j < i && #[trigger] start[j] == kept@[k];
                        assert(start[j].id@ != start[i as int].id@);
                    }
                }
                kept.push(g);
            }
            i += 1;
            assert(rest@ =~= start.subrange(i as int, n as int));
        }
        assert(start.subrange(0, n as int) =~= start);
        self.games = kept;
    }

    /// An empty store.
    pub fn new() -> (t: GameTable)
        ensures
            t.games@.len() == 0,
            t.wf(),
    {
        GameTable { games: Vec::new() }
    }

    /// The position of the match with identifier `id`.
    pub fn find(&self, id: &String) -> (r: Option<usize>)
        requires
            self.wf(),
        ensures
            match r {
                Some(i) => self.position(id@) == Some(i as int) && i < self.games@.len(),
                None => self.position(id@) == None::<int>,
            },
    {
        let mut i: usize = 0;
        while i < self.games.len()
            invariant
                self.wf(),
                i <= self.games@.len(),
                forall|j: int| 0 <= j < i ==> #[trigger] self.games@[j].id@ != id@,
            decreases self.games@.len() - i,
        {
            if self.games[i].id == *id {
                proof {
                    self.lemma_position(i as int);
                }
                return Some(i);
            }
            i += 1;
        }
        None
    }
}

/// The outcome of a move by `sender` on `cell` in match `game_id`, armed at
/// `now`: the error, or the timeout for the next turn when the match goes on.
pub open spec fn mark_cell_outcome(
    games: GameTable,
    sender: Identity,
    game_id: Seq<char>,
    cell: u16,
    now: Timestamp,
    r: Result<Option<GameDurationTimeSchedule>, CommandError>,
    after: GameTable,
) -> bool {
    match games.position(game_id) {
        None => r == Err::<Option<GameDurationTimeSchedule>, CommandError>(CommandError::NotFound)
            && after.games@ == games.games@,
        Some(i) => {
            let g = games.games@[i];
            match g.move_error(sender, cell) {
                Some(e) => r == Err::<Option<GameDurationTimeSchedule>, CommandError>(e)
                    && after.games@ == games.games@,
                None => {
                    let next = g.after_move(cell);
                    &&& after.games@ == games.games@.update(i, next)
                    &&& next.in_progress() ==> (match r {
                        Ok(Some(s)) => arms(s, game_id, next.turn, now),
                        _ => false,
                    })
                    &&& !next.in_progress() ==> r
                        == Ok::<Option<GameDurationTimeSchedule>, CommandError>(None)
                },
            }
        },
    }
}

/// Handles a move by `sender` on `cell` in match `game_id` at `now`. An
/// accepted move that leaves the match in progress returns the timeout to arm
/// for the new turn; a finished match arms none.
pub fn mark_cell(
    games: &mut GameTable,
    sender: Identity,
    game_id: &String,
    cell: u16,
    now: Timestamp,
) -> (r: Result<Option<GameDurationTimeSchedule>, CommandError>)
    requires
        old(games).wf(),
        schedulable(now),
    ensures
        final(games).wf(),
        mark_cell_outcome(*old(games), sender, game_id@, cell, now, r, *final(games)),
{
    let i = match games.find(game_id) {
        Some(i) => i,
        None => return Err(CommandError::NotFound),
    };
    let ghost before = *games;
    let game = &mut games.games[i];
    if let Err(e) = game.apply_move(sender, cell) {
        assert(games.games@ =~= before.games@);
        return Err(e);
    }
    assert(games.games@ =~= before.games@.update(i as int, before.games@[i as int].after_move(cell)));
    if !games.games[i].game_in_progress() {
        return Ok(None);
    }
    let turn = games.games[i].turn;
    Ok(Some(set_turn_expiration_schedule(game_id.clone(), turn, now)))
}

/// Handles a fired timeout `arg` at `now`. While its match is in progress and
/// still at the timeout's turn, the turn is forfeited and the timeout for the
/// new turn is returned; otherwise nothing changes and nothing is armed.
pub fn scheduled_turn_expiration(
    games: &mut GameTable,
    arg: &GameDurationTimeSchedule,
    now: Timestamp,
) -> (r: Option<GameDurationTimeSchedule>)
    requires
        old(games).wf(),
        schedulable(now),
    ensures
        final(games).wf(),
        match old(games).position(arg.game_id@) {
            Some(i) if old(games).games@[i].timeout_live(arg.turn) => {
                let next = old(games).games@[i].after_expiry();
                &&& final(games).games@ == old(games).games@.update(i, next)
                &&& match r {
                    Some(s) => arms(s, arg.game_id@, next.turn, now),
                    None => false,
                }
            },
            _ => r == None::<GameDurationTimeSchedule> && final(games).games@ == old(games).games@,
        },
{
    let i = match games.find(&arg.game_id) {
        Some(i) => i,
        None => return None,
    };
    let ghost before = *games;
    let game = &mut games.games[i];
    if !game.apply_timeout(arg.turn) {
        assert(games.games@ =~= before.games@);
        return None;
    }
    assert(games.games@ =~= before.games@.update(i as int, before.games@[i as int].after_expiry()));
    let turn = games.games[i].turn;
    Some(set_turn_expiration_schedule(arg.game_id.clone(), turn, now))
}

/// Handles `sender` leaving match `game_id`: the match is deleted if
/// `sender` plays in it, and left alone otherwise.
pub fn leave_game(games: &mut GameTable, sender: Identity, game_id: &String)
    requires
        old(games).wf(),
    ensures
        final(games).wf(),
        match old(games).position(game_id@) {
            Some(i) if is_mover(old(games).games@[i], sender) => final(games).games@ == old(
                games,
            ).games@.remove(i),
            _ => final(games).games@ == old(games).games@,
        },
{
    let i = match games.find(game_id) {
        Some(i) => i,
        None => return ,
    };
    if games.games[i].x_player == sender || games.games[i].o_player == sender {
        games.remove_at(i);
    }
}

} // verus!
