//! The 3x3 board: cell state, move validation and win detection.
//!
//! The grid is a flat array of 9 cells indexed by `row * 3 + col`; a cell
//! holds `' '` while empty and a player's marker once occupied. The sole
//! mutation entry point is `make_move`, which occupies an empty cell and
//! rejects a move onto an occupied one, so an occupied cell never reverts
//! to empty and never changes its marker.

use vstd::prelude::*;

verus! {

/// The character standing for an empty cell.
pub open spec fn empty_cell() -> char {
    ' '
}

/// The flat index of the cell in row `row`, column `col`.
pub open spec fn cell_index(row: int, col: int) -> int {
    row * 3 + col
}

/// The board every game starts from: all 9 cells empty.
pub open spec fn blank_board() -> Seq<char> {
    Seq::new(9, |i: int| empty_cell())
}

/// A move onto `(row, col)` is allowed exactly when that cell is empty.
pub open spec fn spec_move_allowed(b: Seq<char>, row: int, col: int) -> bool {
    b[cell_index(row, col)] == empty_cell()
}

/// The board after a move of `marker` onto `(row, col)`: the cell is
/// occupied if it was empty, and the board is unchanged otherwise.
pub open spec fn spec_apply_move(b: Seq<char>, row: int, col: int, marker: char) -> Seq<char> {
    if spec_move_allowed(b, row, col) {
        b.update(cell_index(row, col), marker)
    } else {
        b
    }
}

/// Every cell occupied on `b1` holds the same marker on `b2`.
pub open spec fn occupied_preserved(b1: Seq<char>, b2: Seq<char>) -> bool {
    &&& b1.len() == b2.len()
    &&& forall|i: int| 0 <= i < b1.len() && b1[i] != empty_cell() ==> b2[i] == b1[i]
}

/// Row `r` is a complete line: three identical non-empty markers.
pub open spec fn wins_row(b: Seq<char>, r: int) -> bool {
    &&& b[3 * r] != empty_cell()
    &&& b[3 * r] == b[3 * r + 1]
    &&& b[3 * r + 1] == b[3 * r + 2]
}

/// Column `c` is a complete line: three identical non-empty markers.
pub open spec fn wins_col(b: Seq<char>, c: int) -> bool {
    &&& b[c] != empty_cell()
    &&& b[c] == b[c + 3]
    &&& b[c + 3] == b[c + 6]
}

/// The main diagonal is a complete line.
pub open spec fn wins_main_diagonal(b: Seq<char>) -> bool {
    &&& b[0] != empty_cell()
    &&& b[0] == b[4]
    &&& b[4] == b[8]
}

/// The anti-diagonal is a complete line.
pub open spec fn wins_anti_diagonal(b: Seq<char>) -> bool {
    &&& b[2] != empty_cell()
    &&& b[2] == b[4]
    &&& b[4] == b[6]
}

/// Some row, column or diagonal is composed of three identical non-empty
/// markers.
pub open spec fn has_winning_line(b: Seq<char>) -> bool {
    ||| exists|i: int| 0 <= i < 3 && wins_row(b, i)
    ||| exists|i: int| 0 <= i < 3 && wins_col(b, i)
    ||| wins_main_diagonal(b)
    ||| wins_anti_diagonal(b)
}

/// Some row, column or diagonal is composed of three cells all holding `m`,
/// with `m` not the empty cell.
pub open spec fn has_winning_line_for(b: Seq<char>, m: char) -> bool {
    &&& m != empty_cell()
    &&& {
        ||| exists|i: int| 0 <= i < 3 && wins_row(b, i) && b[3 * i] == m
        ||| exists|i: int| 0 <= i < 3 && wins_col(b, i) && b[i] == m
        ||| (wins_main_diagonal(b) && b[0] == m)
        ||| (wins_anti_diagonal(b) && b[2] == m)
    }
}

/// The marker reported for board `b`: rows and columns are scanned together
/// by ascending index, then the main diagonal, then the anti-diagonal, and
/// the first complete line found decides.
pub open spec fn spec_winner(b: Seq<char>) -> Option<char> {
    if wins_row(b, 0) {
        Some(b[0])
    } else if wins_col(b, 0) {
        Some(b[0])
    } else if wins_row(b, 1) {
        Some(b[3])
    } else if wins_col(b, 1) {
        Some(b[1])
    } else if wins_row(b, 2) {
        Some(b[6])
    } else if wins_col(b, 2) {
        Some(b[2])
    } else if wins_main_diagonal(b) {
        Some(b[0])
    } else if wins_anti_diagonal(b) {
        Some(b[2])
    } else {
        None
    }
}

/// Once a cell has been occupied, every later board that preserves occupied
/// cells still rejects a move onto it, holds the original marker, and is
/// left unchanged by the attempt. Every board the game can reach from the
/// occupying move preserves occupied cells, since `make_move` is the sole
/// mutation entry point and it ensures `occupied_preserved`.
pub proof fn lemma_cell_claimed_once(
    b1: Seq<char>,
    b2: Seq<char>,
    row: int,
    col: int,
    m1: char,
    m2: char,
)
    requires
        b1.len() == 9,
        0 <= row < 3,
        0 <= col < 3,
        m1 != empty_cell(),
        spec_move_allowed(b1, row, col),
        occupied_preserved(spec_apply_move(b1, row, col, m1), b2),
    ensures
        !spec_move_allowed(b2, row, col),
        b2[cell_index(row, col)] == m1,
        spec_apply_move(b2, row, col, m2) == b2,
{
    assert(spec_apply_move(b1, row, col, m1)[cell_index(row, col)] == m1);
}

/// `occupied_preserved` carries over a chain of moves: boards reached in
/// several steps still hold every marker placed along the way.
pub proof fn lemma_occupied_preserved_transitive(b1: Seq<char>, b2: Seq<char>, b3: Seq<char>)
    requires
        occupied_preserved(b1, b2),
        occupied_preserved(b2, b3),
    ensures
        occupied_preserved(b1, b3),
{
}

/// A marker is reported for a board exactly when some row, column or
/// diagonal is composed of three identical non-empty markers; and the
/// reported marker itself heads such a line.
pub proof fn lemma_winner_iff_line(b: Seq<char>)
    ensures
        spec_winner(b) is Some <==> has_winning_line(b),
        forall|m: char| spec_winner(b) == Some(m) ==> has_winning_line_for(b, m),
{
    if has_winning_line(b) {
        if exists|i: int| 0 <= i < 3 && wins_row(b, i) {
            let i = choose|i: int| 0 <= i < 3 && wins_row(b, i);
            assert(i == 0 || i == 1 || i == 2);
        } else if exists|i: int| 0 <= i < 3 && wins_col(b, i) {
            let i = choose|i: int| 0 <= i < 3 && wins_col(b, i);
            assert(i == 0 || i == 1 || i == 2);
        }
        assert(spec_winner(b) is Some);
    }
    if spec_winner(b) is Some {
        let m = spec_winner(b)->Some_0;
        if wins_row(b, 0) {
            assert(0 <= 0 < 3 && wins_row(b, 0) && b[0] == m);
        } else if wins_col(b, 0) {
            assert(0 <= 0 < 3 && wins_col(b, 0) && b[0] == m);
        } else if wins_row(b, 1) {
            assert(0 <= 1 < 3 && wins_row(b, 1) && b[3] == m);
        } else if wins_col(b, 1) {
            assert(0 <= 1 < 3 && wins_col(b, 1) && b[1] == m);
        } else if wins_row(b, 2) {
            assert(0 <= 2 < 3 && wins_row(b, 2) && b[6] == m);
        } else if wins_col(b, 2) {
            assert(0 <= 2 < 3 && wins_col(b, 2) && b[2] == m);
        }
        assert(has_winning_line_for(b, m));
        assert(has_winning_line(b));
    }
}

/// One row of the textual rendering: the row's three cells separated by
/// dividers, each cell shown as its marker or blank, ending in a newline.
pub open spec fn render_row(b: Seq<char>, r: int) -> Seq<char> {
    seq![' ', b[3 * r]] + " | "@ + seq![b[3 * r + 1]] + " | "@ + seq![b[3 * r + 2]] + " \n"@
}

/// The divider line printed under each row.
pub open spec fn render_divider() -> Seq<char> {
    "---|---|---\n"@
}

/// The full textual rendering of a board: its three rows, each followed by
/// a divider line.
pub open spec fn render_board(b: Seq<char>) -> Seq<char> {
    render_row(b, 0) + render_divider() + render_row(b, 1) + render_divider() + render_row(b, 2)
        + render_divider()
}

/// Relies on String::push: appends the given character to the end of the
/// string.
#[verifier::external_body]
fn push_char(text: &mut String, c: char)
    ensures
        final(text)@ == old(text)@.push(c),
{
    text.push(c);
}

/// Appends one rendered row of cells `c0`, `c1`, `c2` and the divider line.
fn push_row(text: &mut String, c0: char, c1: char, c2: char)
    ensures
        final(text)@ == old(text)@ + seq![' ', c0] + " | "@ + seq![c1] + " | "@ + seq![c2]
            + " \n"@ + render_divider(),
{
    let ghost start = text@;
    push_char(text, ' ');
    push_char(text, c0);
    text.append(" | ");
    push_char(text, c1);
    text.append(" | ");
    push_char(text, c2);
    text.append(" \n");
    text.append("---|---|---\n");
    proof {
        assert(text@ =~= start + seq![' ', c0] + " | "@ + seq![c1] + " | "@ + seq![c2] + " \n"@
            + render_divider());
    }
}

/// The 3x3 grid of cells.
pub struct Board {
    cells: [char; 9],
}

impl View for Board {
    type V = Seq<char>;

    closed spec fn view(&self) -> Seq<char> {
        self.cells@
    }
}

impl Board {
    /// A board with all 9 cells empty.
    pub fn new() -> (board: Board)
        ensures
            board@ == blank_board(),
    {
        let board = Board { cells: [' ', ' ', ' ', ' ', ' ', ' ', ' ', ' ', ' '] };
        proof {
            assert(board@ =~= blank_board());
        }
        board
    }

    /// Every board has exactly 9 cells, whatever its history; exported so
    /// the board lemmas above can be applied to any board's view.
    pub proof fn lemma_board_len(&self)
        ensures
            self@.len() == 9,
    {
    }

    /// The marker held by the cell in row `row`, column `col`.
    pub fn cell(&self, row: usize, col: usize) -> (c: char)
        requires
            row < 3,
            col < 3,
        ensures
            c == self@[cell_index(row as int, col as int)],
    {
        self.cells[row * 3 + col]
    }

    /// Attempts to occupy the cell at `(row, col)` with `marker`: succeeds
    /// and writes the marker exactly when the cell was empty, and leaves the
    /// board unmodified otherwise.
    pub fn make_move(&mut self, row: usize, col: usize, marker: char) -> (accepted: bool)
        requires
            row < 3,
            col < 3,
            marker != empty_cell(),
        ensures
            accepted == spec_move_allowed(old(self)@, row as int, col as int),
            final(self)@ == spec_apply_move(old(self)@, row as int, col as int, marker),
            occupied_preserved(old(self)@, final(self)@),
    {
        let idx: usize = row * 3 + col;
        if self.cells[idx] == ' ' {
            self.cells[idx] = marker;
            true
        } else {
            false
        }
    }

    /// The marker occupying a complete line, if one exists, chosen by the
    /// scan order of `spec_winner`; `None` when no line is complete.
    pub fn check_winner(&self) -> (winner: Option<char>)
        ensures
            winner == spec_winner(self@),
    {
        let mut i: usize = 0;
        while i < 3
            invariant
                i <= 3,
                forall|j: int| 0 <= j < i ==> !wins_row(self@, j) && !wins_col(self@, j),
            decreases 3 - i,
        {
            if self.cells[3 * i] != ' ' && self.cells[3 * i] == self.cells[3 * i + 1]
                && self.cells[3 * i + 1] == self.cells[3 * i + 2] {
                return Some(self.cells[3 * i]);
            }
            if self.cells[i] != ' ' && self.cells[i] == self.cells[i + 3]
                && self.cells[i + 3] == self.cells[i + 6] {
                return Some(self.cells[i]);
            }
            i = i + 1;
        }
        if self.cells[0] != ' ' && self.cells[0] == self.cells[4] && self.cells[4] == self.cells[8] {
            return Some(self.cells[0]);
        }
        if self.cells[2] != ' ' && self.cells[2] == self.cells[4] && self.cells[4] == self.cells[6] {
            return Some(self.cells[2]);
        }
        None
    }

    /// The textual rendering of the grid, with empty cells shown as blank;
    /// a pure read with no effect on the board.
    pub fn render(&self) -> (text: String)
        ensures
            text@ == render_board(self@),
    {
        let mut text = String::new();
        push_row(&mut text, self.cells[0], self.cells[1], self.cells[2]);
        push_row(&mut text, self.cells[3], self.cells[4], self.cells[5]);
        push_row(&mut text, self.cells[6], self.cells[7], self.cells[8]);
        proof {
            assert(text@ =~= render_board(self@));
        }
        text
    }
}

} // verus!
