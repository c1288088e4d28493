//! Bit-encoded boards.
//!
//! A mask holds one bit per cell of the 3x3 board, row-major: the cell at
//! column `c` and row `r` is bit `3 * r + c`. Each side has its own mask and
//! the two masks never share a bit.

use vstd::prelude::*;

verus! {

/// The mask with every cell of the board set.
pub const FULL_BOARD: u16 = 0b111_111_111;

/// What a side's mask tells about the game once that side has moved.
#[derive(Clone, Copy, Debug, PartialEq, Eq, Structural)]
pub enum Evaluation {
    /// The side occupies a complete row, column or diagonal.
    Win,
    /// Some line still lacks stones of one of the two sides.
    StillOpen,
    /// Every line holds stones of both sides: nobody can complete one.
    Blocked,
}

/// The eight lines of the board: three rows, three columns, two diagonals.
pub open spec fn line(i: int) -> u16 {
    if i == 0 {
        0b000_000_111
    } else if i == 1 {
        0b000_111_000
    } else if i == 2 {
        0b111_000_000
    } else if i == 3 {
        0b001_001_001
    } else if i == 4 {
        0b010_010_010
    } else if i == 5 {
        0b100_100_100
    } else if i == 6 {
        0b100_010_001
    } else {
        0b001_010_100
    }
}

/// `c` is the bit of exactly one cell of the board.
pub open spec fn is_cell(c: u16) -> bool {
    c == 1 || c == 2 || c == 4 || c == 8 || c == 16 || c == 32 || c == 64 || c == 128 || c == 256
}

/// A pair of masks that can describe a board: nine bits each, no shared cell.
pub open spec fn disjoint_boards(a: u16, b: u16) -> bool {
    a & !FULL_BOARD == 0 && b & !FULL_BOARD == 0 && a & b == 0
}

/// Neither mask holds cell `c`.
pub open spec fn cell_free(a: u16, b: u16, c: u16) -> bool {
    a & c == 0 && b & c == 0
}

/// The mask `own` holds every cell of line `i`.
pub open spec fn covers_line(own: u16, i: int) -> bool {
    own & line(i) == line(i)
}

/// The mask `own` holds a complete line.
pub open spec fn completes_line(own: u16) -> bool {
    exists|i: int| 0 <= i < 8 && #[trigger] covers_line(own, i)
}

/// Line `i` lacks stones of at least one side, so it may still be completed.
pub open spec fn line_open(a: u16, b: u16, i: int) -> bool {
    !(a & line(i) != 0 && b & line(i) != 0)
}

/// The evaluation of `own`, the side that has just moved, against `opponent`.
pub open spec fn evaluation_of(own: u16, opponent: u16) -> Evaluation {
    if completes_line(own) {
        Evaluation::Win
    } else if exists|i: int| 0 <= i < 8 && #[trigger] line_open(own, opponent, i) {
        Evaluation::StillOpen
    } else {
        Evaluation::Blocked
    }
}

/// On a full board where neither side holds a complete line, every line holds
/// stones of both sides: the evaluation of either side is `Blocked`.
pub proof fn lemma_full_board_blocked(own: u16, opponent: u16)
    requires
        own | opponent == FULL_BOARD,
        !completes_line(own),
        !completes_line(opponent),
    ensures
        evaluation_of(own, opponent) == Evaluation::Blocked,
{
    assert forall|i: int| 0 <= i < 8 implies !#[trigger] line_open(own, opponent, i) by {
        assert(!covers_line(own, i));
        assert(!covers_line(opponent, i));
        let l = line(i);
        assert(l == 7 || l == 56 || l == 448 || l == 73 || l == 146 || l == 292 || l == 273 || l
            == 84);
        assert(own & l != 0 && opponent & l != 0) by (bit_vector)
            requires
                own | opponent == 0x1ff,
                l == 7 || l == 56 || l == 448 || l == 73 || l == 146 || l == 292 || l == 273 || l
                    == 84,
                own & l != l,
                opponent & l != l,
        {
        }
    }
}

/// The mask of line `i`.
pub fn winning_line(i: usize) -> (m: u16)
    requires
        i < 8,
    ensures
        m == line(i as int),
{
    match i {
        0 => 0b000_000_111,
        1 => 0b000_111_000,
        2 => 0b111_000_000,
        3 => 0b001_001_001,
        4 => 0b010_010_010,
        5 => 0b100_100_100,
        6 => 0b100_010_001,
        _ => 0b001_010_100,
    }
}

/// True iff neither side occupies the cell `cell_bit`.
pub fn is_cell_free(first_mask: u16, second_mask: u16, cell_bit: u16) -> (r: bool)
    ensures
        r == cell_free(first_mask, second_mask, cell_bit),
{
    first_mask & cell_bit == 0 && second_mask & cell_bit == 0
}

/// Evaluates the mask of the side that has just moved against the other one.
pub fn evaluate(own_mask: u16, opponent_mask: u16) -> (r: Evaluation)
    ensures
        r == evaluation_of(own_mask, opponent_mask),
{
    let mut any_open = false;
    let mut i: usize = 0;
    while i < 8
        invariant
            i <= 8,
            forall|j: int| 0 <= j < i ==> !#[trigger] covers_line(own_mask, j),
            any_open == exists|j: int| 0 <= j < i && #[trigger] line_open(own_mask, opponent_mask, j),
        decreases 8 - i,
    {
        let mask = winning_line(i);
        if own_mask & mask == mask {
            assert(covers_line(own_mask, i as int));
            return Evaluation::Win;
        }
        let open_here = !(own_mask & mask != 0 && opponent_mask & mask != 0);
        assert(open_here == line_open(own_mask, opponent_mask, i as int));
        any_open = any_open || open_here;
        i += 1;
    }
    if any_open {
        Evaluation::StillOpen
    } else {
        Evaluation::Blocked
    }
}

} // verus!
