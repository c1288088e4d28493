//! The state machine of one match.

use vstd::prelude::*;

use crate::bitboard::{
    cell_free, completes_line, disjoint_boards, evaluate, evaluation_of, is_cell, is_cell_free,
    lemma_full_board_blocked, line_open, Evaluation, FULL_BOARD,
};
use crate::types::{CommandError, GameState, Identity, Player};

verus! {

/// The turn number that follows `t`. The counter wraps after 255 turns, so a
/// stale timeout is recognised as long as fewer than 256 turns separate it
/// from the live turn.
pub open spec fn next_turn_number(t: u8) -> u8 {
    if t == 255 {
        0
    } else {
        (t + 1) as u8
    }
}

/// One match between two participants.
#[derive(Clone, Debug)]
pub struct Game {
    /// The match's identifier, unique among live matches.
    pub id: String,
    /// The participant who plays `X` and moves first.
    pub x_player: Identity,
    /// The participant who plays `O`.
    pub o_player: Identity,
    /// The side whose turn it is.
    pub turn_owner: Player,
    /// The cells held by `X`.
    pub x_mask: u16,
    /// The cells held by `O`.
    pub o_mask: u16,
    /// The result so far.
    pub state: GameState,
    /// The number of turn changes so far.
    pub turn: u8,
    /// Whether the last turn change was caused by an expired turn.
    pub time_expired: bool,
}

impl Game {
    /// A fresh match: `X` to move on an empty board, turn 0.
    pub open spec fn fresh(x_player: Identity, o_player: Identity, id: String) -> Game {
        Game {
            id,
            x_player,
            o_player,
            turn_owner: Player::X,
            x_mask: 0,
            o_mask: 0,
            state: GameState::InProgress,
            turn: 0,
            time_expired: false,
        }
    }

    /// The masks describe a board, and a match in progress has no completed
    /// line.
    pub open spec fn wf(&self) -> bool {
        &&& disjoint_boards(self.x_mask, self.o_mask)
        &&& self.state == GameState::InProgress ==> !completes_line(self.x_mask) && !completes_line(
            self.o_mask,
        )
    }

    pub open spec fn in_progress(&self) -> bool {
        self.state == GameState::InProgress
    }

    /// The participant bound to side `p`.
    pub open spec fn player_of(&self, p: Player) -> Identity {
        match p {
            Player::X => self.x_player,
            Player::O => self.o_player,
        }
    }

    /// The cells held by side `p`.
    pub open spec fn mask_of(&self, p: Player) -> u16 {
        match p {
            Player::X => self.x_mask,
            Player::O => self.o_mask,
        }
    }

    /// The match after the turn owner's mask gains `cell`.
    pub open spec fn with_cell(self, cell: u16) -> Game {
        match self.turn_owner {
            Player::X => Game { x_mask: self.x_mask | cell, ..self },
            Player::O => Game { o_mask: self.o_mask | cell, ..self },
        }
    }

    /// The turn passes to the other side after a move.
    pub open spec fn after_next_turn(self) -> Game {
        Game {
            time_expired: false,
            turn_owner: self.turn_owner.other(),
            turn: next_turn_number(self.turn),
            ..self
        }
    }

    /// The turn passes to the other side because it expired.
    pub open spec fn after_expiry(self) -> Game {
        Game {
            time_expired: true,
            turn_owner: self.turn_owner.other(),
            turn: next_turn_number(self.turn),
            ..self
        }
    }

    /// The match once the turn owner's last move has been evaluated: won by
    /// the turn owner, drawn, or handed to the other side.
    pub open spec fn after_evaluation(self) -> Game {
        match evaluation_of(self.mask_of(self.turn_owner), self.mask_of(self.turn_owner.other())) {
            Evaluation::Win => Game { state: GameState::Winner(self.turn_owner), ..self },
            Evaluation::Blocked => Game { state: GameState::Draw, ..self },
            Evaluation::StillOpen => self.after_next_turn(),
        }
    }

    /// Why a move by `sender` on `cell` is rejected, if it is.
    pub open spec fn move_error(&self, sender: Identity, cell: u16) -> Option<CommandError> {
        if !self.in_progress() {
            Some(CommandError::NotInProgress)
        } else if sender != self.player_of(self.turn_owner) {
            Some(CommandError::WrongTurn)
        } else if !cell_free(self.x_mask, self.o_mask, cell) {
            Some(CommandError::CellTaken)
        } else {
            None
        }
    }

    /// The match after an accepted move on `cell`.
    pub open spec fn after_move(self, cell: u16) -> Game {
        self.with_cell(cell).after_evaluation()
    }

    /// The match after the participant who holds the turn plays `cell`:
    /// unchanged when the move is rejected.
    pub open spec fn step(self, cell: u16) -> Game {
        match self.move_error(self.player_of(self.turn_owner), cell) {
            Some(_) => self,
            None => self.after_move(cell),
        }
    }

    /// A timeout armed for turn `turn` still governs this match.
    pub open spec fn timeout_live(&self, turn: u8) -> bool {
        self.in_progress() && self.turn == turn
    }

    /// A new match between `x_player`, who moves first, and `o_player`.
    pub fn new(x_player: Identity, o_player: Identity, id: String) -> (g: Game)
        ensures
            g == Game::fresh(x_player, o_player, id),
            g.wf(),
    {
        let g = Game {
            id,
            x_player,
            o_player,
            turn_owner: Player::X,
            x_mask: 0,
            o_mask: 0,
            state: GameState::InProgress,
            turn: 0,
            time_expired: false,
        };
        proof {
            lemma_empty_mask_no_line();
            assert(disjoint_boards(0, 0)) by (bit_vector);
        }
        g
    }

    pub fn game_in_progress(&self) -> (r: bool)
        ensures
            r == self.in_progress(),
    {
        match self.state {
            GameState::InProgress => true,
            _ => false,
        }
    }

    /// Whether `player` is the participant bound to the side to move.
    pub fn validate_turn_owner(&self, player: Identity) -> (r: bool)
        ensures
            r == (player == self.player_of(self.turn_owner)),
    {
        match self.turn_owner {
            Player::X => self.x_player == player,
            Player::O => self.o_player == player,
        }
    }

    /// Evaluates the board for the side that has just moved: it wins, the
    /// match is drawn, or the turn passes to the other side.
    pub fn result_or_next_turn(&mut self)
        ensures
            *final(self) == old(self).after_evaluation(),
    {
        let (own, opponent) = match self.turn_owner {
            Player::X => (self.x_mask, self.o_mask),
            Player::O => (self.o_mask, self.x_mask),
        };
        match evaluate(own, opponent) {
            Evaluation::Win => {
                self.state = GameState::Winner(self.turn_owner);
            },
            Evaluation::Blocked => {
                self.state = GameState::Draw;
            },
            Evaluation::StillOpen => {
                self.next_turn();
            },
        }
    }

    fn next_turn(&mut self)
        ensures
            *final(self) == old(self).after_next_turn(),
    {
        self.time_expired = false;
        self.turn_owner = self.turn_owner.opponent();
        self.turn = if self.turn == 255 {
            0
        } else {
            self.turn + 1
        };
    }

    /// Hands the turn to the other side because the current one expired.
    pub fn turn_expired(&mut self)
        ensures
            *final(self) == old(self).after_expiry(),
            old(self).wf() ==> final(self).wf(),
    {
        self.turn_owner = self.turn_owner.opponent();
        self.time_expired = true;
        self.turn = if self.turn == 255 {
            0
        } else {
            self.turn + 1
        };
    }

    /// Marks `cell` for the side to move, if neither side holds it.
    pub fn toggle_cell(&mut self, cell: u16) -> (r: Result<(), CommandError>)
        ensures
            cell_free(old(self).x_mask, old(self).o_mask, cell) ==> r == Ok::<(), CommandError>(())
                && *final(self) == old(self).with_cell(cell),
            !cell_free(old(self).x_mask, old(self).o_mask, cell) ==> r == Err::<(), CommandError>(
                CommandError::CellTaken,
            ) && *final(self) == *old(self),
    {
        if !is_cell_free(self.x_mask, self.o_mask, cell) {
            return Err(CommandError::CellTaken);
        }
        match self.turn_owner {
            Player::X => self.x_mask = self.x_mask | cell,
            Player::O => self.o_mask = self.o_mask | cell,
        }
        Ok(())
    }

    /// Applies a move by `sender` on `cell`: rejected unless the match is in
    /// progress, `sender` holds the turn and the cell is free; otherwise the
    /// cell is marked and the board evaluated for the mover.
    pub fn apply_move(&mut self, sender: Identity, cell: u16) -> (r: Result<(), CommandError>)
        ensures
            match old(self).move_error(sender, cell) {
                Some(e) => r == Err::<(), CommandError>(e) && *final(self) == *old(self),
                None => r == Ok::<(), CommandError>(()) && *final(self) == old(self).after_move(cell),
            },
            old(self).in_progress() && sender != old(self).player_of(old(self).turn_owner) ==> r
                == Err::<(), CommandError>(CommandError::WrongTurn),
            old(self).in_progress() && sender == old(self).player_of(old(self).turn_owner)
                && !cell_free(old(self).x_mask, old(self).o_mask, cell) ==> {
                &&& r == Err::<(), CommandError>(CommandError::CellTaken)
                &&& final(self).x_mask == old(self).x_mask
                &&& final(self).o_mask == old(self).o_mask
            },
            sender == old(self).player_of(old(self).turn_owner) ==> *final(self) == old(self).step(
                cell,
            ),
            old(self).wf() && is_cell(cell) ==> final(self).wf(),
    {
        if !self.game_in_progress() {
            return Err(CommandError::NotInProgress);
        }
        if !self.validate_turn_owner(sender) {
            return Err(CommandError::WrongTurn);
        }
        let ghost before = *self;
        self.toggle_cell(cell)?;
        proof {
            if before.wf() && is_cell(cell) {
                lemma_mark_keeps_boards(before.x_mask, before.o_mask, cell);
            }
        }
        self.result_or_next_turn();
        Ok(())
    }

    /// Applies a fired timeout armed for turn `turn`. It forfeits the turn
    /// only while the match is in progress and still at that turn; otherwise
    /// it changes nothing.
    pub fn apply_timeout(&mut self, turn: u8) -> (applied: bool)
        ensures
            applied == old(self).timeout_live(turn),
            applied ==> *final(self) == old(self).after_expiry(),
            !applied ==> *final(self) == *old(self),
            old(self).turn != turn ==> *final(self) == *old(self),
            old(self).wf() ==> final(self).wf(),
    {
        if !self.game_in_progress() || self.turn != turn {
            return false;
        }
        self.turn_expired();
        true
    }
}

/// The match after the cells of `cells` are played in order, each by the
/// participant who holds the turn at that point.
pub open spec fn play(g: Game, cells: Seq<u16>) -> Game
    decreases cells.len(),
{
    if cells.len() == 0 {
        g
    } else {
        play(g, cells.drop_last()).step(cells.last())
    }
}

/// What holds of a match reached by playing `cells` from a fresh one.
pub open spec fn play_invariant(g: Game, cells: Seq<u16>) -> bool {
    &&& g.wf()
    &&& g.in_progress() ==> exists|i: int| 0 <= i < 8 && #[trigger] line_open(g.x_mask, g.o_mask, i)
    &&& forall|p: Player| g.state == GameState::Winner(p) ==> completes_line(#[trigger] g.mask_of(p))
    &&& g.in_progress() ==> forall|j: int|
        0 <= j < cells.len() ==> !#[trigger] cell_free(g.x_mask, g.o_mask, cells[j])
}

/// An accepted move keeps a match well formed.
pub proof fn lemma_after_move_wf(g: Game, cell: u16)
    requires
        g.wf(),
        is_cell(cell),
        cell_free(g.x_mask, g.o_mask, cell),
    ensures
        g.in_progress() ==> g.after_move(cell).wf(),
{
    lemma_mark_keeps_boards(g.x_mask, g.o_mask, cell);
}

/// Playing a further cell keeps `play_invariant`.
proof fn lemma_step_invariant(g: Game, cells: Seq<u16>, cell: u16)
    requires
        play_invariant(g, cells),
        is_cell(cell),
    ensures
        play_invariant(g.step(cell), cells.push(cell)),
{
    let next = g.step(cell);
    let all = cells.push(cell);
    if !g.in_progress() {
        assert(next == g);
        return;
    }
    if !cell_free(g.x_mask, g.o_mask, cell) {
        assert(next == g);
        assert forall|j: int| 0 <= j < all.len() implies !#[trigger] cell_free(
            next.x_mask,
            next.o_mask,
            all[j],
        ) by {
            if j < cells.len() {
                assert(all[j] == cells[j]);
            }
        }
        return;
    }
    lemma_after_move_wf(g, cell);
    let marked = g.with_cell(cell);
    let own = marked.mask_of(g.turn_owner);
    let opp = marked.mask_of(g.turn_owner.other());
    assert(next == marked.after_evaluation());
    let x = g.x_mask;
    let o = g.o_mask;
    let nx = next.x_mask;
    let no = next.o_mask;
    assert(nx == x | cell || nx == x);
    assert(no == o | cell || no == o);
    assert(nx | no == x | o | cell) by {
        if g.turn_owner == Player::X {
            assert(nx == x | cell && no == o);
            assert((x | cell) | o == x | o | cell) by (bit_vector);
        } else {
            assert(nx == x && no == o | cell);
            assert(x | (o | cell) == x | o | cell) by (bit_vector);
        }
    }
    if next.in_progress() {
        assert(evaluation_of(own, opp) == Evaluation::StillOpen);
        let i = choose|i: int| 0 <= i < 8 && #[trigger] line_open(own, opp, i);
        assert(line_open(nx, no, i));
        assert forall|j: int| 0 <= j < all.len() implies !#[trigger] cell_free(nx, no, all[j]) by {
            let c = all[j];
            if j < cells.len() {
                assert(c == cells[j]);
                assert(!cell_free(x, o, c));
            } else {
                assert(c == cell);
            }
            assert(!cell_free(nx, no, c)) by (bit_vector)
                requires
                    nx | no == x | o | cell,
                    (x & c != 0 || o & c != 0) || (c == cell && cell != 0),
            ;
        }
    }
    assert forall|p: Player| next.state == GameState::Winner(p) implies completes_line(
        #[trigger] next.mask_of(p),
    ) by {
        assert(p == g.turn_owner);
        assert(evaluation_of(own, opp) == Evaluation::Win);
    }
}

/// `play_invariant` holds of every prefix of a sequence of cells played from
/// a fresh match.
proof fn lemma_play_invariant(g: Game, cells: Seq<u16>)
    requires
        g == Game::fresh(g.x_player, g.o_player, g.id),
        forall|j: int| 0 <= j < cells.len() ==> is_cell(#[trigger] cells[j]),
    ensures
        play_invariant(play(g, cells), cells),
    decreases cells.len(),
{
    if cells.len() == 0 {
        lemma_empty_mask_no_line();
        assert(disjoint_boards(0, 0)) by (bit_vector);
        assert(0u16 & 7u16 == 0) by (bit_vector);
        assert(line_open(0, 0, 0));
    } else {
        let prefix = cells.drop_last();
        assert forall|j: int| 0 <= j < prefix.len() implies is_cell(#[trigger] prefix[j]) by {
            assert(prefix[j] == cells[j]);
        }
        lemma_play_invariant(g, prefix);
        assert(is_cell(cells[cells.len() - 1]));
        lemma_step_invariant(play(g, prefix), prefix, cells.last());
        assert(prefix.push(cells.last()) =~= cells);
    }
}

/// A played cell is taken in a match that `play_invariant` describes.
proof fn lemma_played_cell_taken(g: Game, cells: Seq<u16>, c: u16)
    requires
        play_invariant(g, cells),
        g.in_progress(),
        cells.contains(c),
    ensures
        !cell_free(g.x_mask, g.o_mask, c),
{
    let j = choose|j: int| 0 <= j < cells.len() && cells[j] == c;
    assert(!cell_free(g.x_mask, g.o_mask, cells[j]));
}

/// A full game ends in a draw: when the nine cells of the board are all
/// played from a fresh match, each move by the participant who holds the
/// turn, and neither side ends up with a complete line, the match is drawn.
pub proof fn lemma_filled_board_is_draw(g: Game, cells: Seq<u16>)
    requires
        g == Game::fresh(g.x_player, g.o_player, g.id),
        cells.len() == 9,
        forall|j: int| 0 <= j < cells.len() ==> is_cell(#[trigger] cells[j]),
        forall|c: u16| is_cell(c) ==> cells.contains(c),
        !completes_line(play(g, cells).x_mask),
        !completes_line(play(g, cells).o_mask),
    ensures
        play(g, cells).state == GameState::Draw,
{
    let end = play(g, cells);
    lemma_play_invariant(g, cells);
    match end.state {
        GameState::Winner(p) => {
            assert(completes_line(end.mask_of(p)));
        },
        GameState::Draw => {},
        GameState::InProgress => {
            assert(is_cell(1) && is_cell(2) && is_cell(4) && is_cell(8) && is_cell(16));
            assert(is_cell(32) && is_cell(64) && is_cell(128) && is_cell(256));
            let x = end.x_mask;
            let o = end.o_mask;
            lemma_played_cell_taken(end, cells, 1);
            lemma_played_cell_taken(end, cells, 2);
            lemma_played_cell_taken(end, cells, 4);
            lemma_played_cell_taken(end, cells, 8);
            lemma_played_cell_taken(end, cells, 16);
            lemma_played_cell_taken(end, cells, 32);
            lemma_played_cell_taken(end, cells, 64);
            lemma_played_cell_taken(end, cells, 128);
            lemma_played_cell_taken(end, cells, 256);
            assert(x | o == FULL_BOARD) by (bit_vector)
                requires
                    x & !0x1ffu16 == 0 && o & !0x1ffu16 == 0,
                    x & 1 != 0 || o & 1 != 0,
                    x & 2 != 0 || o & 2 != 0,
                    x & 4 != 0 || o & 4 != 0,
                    x & 8 != 0 || o & 8 != 0,
                    x & 16 != 0 || o & 16 != 0,
                    x & 32 != 0 || o & 32 != 0,
                    x & 64 != 0 || o & 64 != 0,
                    x & 128 != 0 || o & 128 != 0,
                    x & 256 != 0 || o & 256 != 0,
            ;
            lemma_full_board_blocked(x, o);
            let i = choose|i: int| 0 <= i < 8 && #[trigger] line_open(x, o, i);
            assert(!line_open(x, o, i));
        },
    }
}

/// Marking a free cell keeps two masks a board.
pub proof fn lemma_mark_keeps_boards(a: u16, b: u16, c: u16)
    requires
        disjoint_boards(a, b),
        is_cell(c),
        cell_free(a, b, c),
    ensures
        disjoint_boards(a | c, b),
        disjoint_boards(a, b | c),
{
    assert(disjoint_boards(a | c, b) && disjoint_boards(a, b | c)) by (bit_vector)
        requires
            a & !0x1ffu16 == 0 && b & !0x1ffu16 == 0 && a & b == 0,
            c == 1 || c == 2 || c == 4 || c == 8 || c == 16 || c == 32 || c == 64 || c == 128 || c
                == 256,
            a & c == 0 && b & c == 0,
    ;
}

/// The empty mask holds no line.
pub proof fn lemma_empty_mask_no_line()
    ensures
        !completes_line(0),
{
    assert forall|i: int| 0 <= i < 8 implies !#[trigger] crate::bitboard::covers_line(0, i) by {
        let l = crate::bitboard::line(i);
        assert(l != 0);
        assert(0u16 & l == 0) by (bit_vector);
    }
}

} // verus!
