//! The turn-driving game state machine.
//!
//! A `Game` owns one board and an ordered pair of players and alternates
//! whose turn it is. Each offered line of input either advances the game by
//! one accepted move or is rejected with the turn unchanged; the turn index
//! toggles exactly once per accepted move, never on a rejected one, and the
//! game ends when a move completes a line.

use crate::board::{
    blank_board, empty_cell, spec_apply_move, spec_move_allowed, spec_winner, Board,
};
use crate::parse::{
    next_token_end, next_token_start, parse_usize_token, spec_parse_input, spec_tokens,
    tokens_from,
};
use crate::player::Player;
use vstd::prelude::*;

verus! {

/// What one offered line of input did to the game.
#[derive(Clone, Copy, Debug, PartialEq, Eq, Structural)]
pub enum TurnOutcome {
    /// The line did not parse into two numeric coordinates; reprompt, same
    /// turn.
    MalformedInput,
    /// The parsed coordinates lie outside the grid; reprompt, same turn.
    OutOfRangeMove,
    /// The target cell is already taken; reprompt, same turn.
    CellOccupied,
    /// The move was accepted and the game goes on; the turn toggles.
    Moved,
    /// The move was accepted and completed a line; the mover wins and the
    /// game is over.
    Won,
}

/// The game as ghost state: the grid, the ordered pair of players, whose
/// turn it is, and how many moves have been accepted.
pub ghost struct GameView {
    pub board: Seq<char>,
    pub players: Seq<Player>,
    pub turn: nat,
    pub plies: nat,
}

impl GameView {
    /// The marker of the player whose turn it is.
    pub open spec fn current_marker(self) -> char {
        self.players[self.turn as int].marker
    }
}

/// The opposite turn index.
pub open spec fn toggle(turn: nat) -> nat {
    if turn == 0 {
        1
    } else {
        0
    }
}

/// The decision taken for one offered line when `marker` is to move on
/// `board`: how the line parses, whether the coordinates are in range,
/// whether the target cell is free, and whether the move completes a line.
pub open spec fn spec_outcome(board: Seq<char>, marker: char, line: Seq<char>) -> TurnOutcome {
    match spec_parse_input(line) {
        None => TurnOutcome::MalformedInput,
        Some(rc) => {
            if rc.0 >= 3 || rc.1 >= 3 {
                TurnOutcome::OutOfRangeMove
            } else if !spec_move_allowed(board, rc.0 as int, rc.1 as int) {
                TurnOutcome::CellOccupied
            } else if spec_winner(spec_apply_move(board, rc.0 as int, rc.1 as int, marker))
                is Some {
                TurnOutcome::Won
            } else {
                TurnOutcome::Moved
            }
        },
    }
}

/// The board after one offered line: updated by the move when it is
/// accepted, unchanged when it is rejected.
pub open spec fn spec_board_after(board: Seq<char>, marker: char, line: Seq<char>) -> Seq<char> {
    match spec_parse_input(line) {
        None => board,
        Some(rc) => {
            if rc.0 < 3 && rc.1 < 3 {
                spec_apply_move(board, rc.0 as int, rc.1 as int, marker)
            } else {
                board
            }
        },
    }
}

/// Whether the outcome is an accepted move (one ply).
pub open spec fn accepted(outcome: TurnOutcome) -> bool {
    outcome == TurnOutcome::Moved || outcome == TurnOutcome::Won
}

/// The whole game: one board, two players, and whose turn it is.
pub struct Game {
    board: Board,
    players: [Player; 2],
    current_turn: usize,
    plies: Ghost<nat>,
}

impl View for Game {
    type V = GameView;

    closed spec fn view(&self) -> GameView {
        GameView {
            board: self.board@,
            players: self.players@,
            turn: self.current_turn as nat,
            plies: self.plies@,
        }
    }
}

impl Game {
    /// The game's structural invariant: a 9-cell board, two players whose
    /// markers are not the blank cell, and a turn index of 0 or 1.
    pub open spec fn wf(self) -> bool {
        &&& self@.board.len() == 9
        &&& self@.players.len() == 2
        &&& self@.turn < 2
        &&& self@.players[0].marker != empty_cell()
        &&& self@.players[1].marker != empty_cell()
    }

    /// The turn index equals the number of accepted moves modulo 2: it
    /// starts at 0 and toggles exactly once per accepted move.
    pub open spec fn turn_tracks_plies(self) -> bool {
        self@.turn == self@.plies % 2
    }

    /// A fresh game: an empty board, the two built-in players with markers
    /// `X` and `O`, and the first player to move.
    pub fn new() -> (game: Game)
        ensures
            game.wf(),
            game.turn_tracks_plies(),
            game@.board == blank_board(),
            game@.turn == 0,
            game@.plies == 0,
            game@.players[0].name@ == "Player 1"@,
            game@.players[0].marker == 'X',
            game@.players[1].name@ == "Player 2"@,
            game@.players[1].marker == 'O',
    {
        let player1 = Player::new(String::from_str("Player 1"), 'X');
        let player2 = Player::new(String::from_str("Player 2"), 'O');
        Game {
            board: Board::new(),
            players: [player1, player2],
            current_turn: 0,
            plies: Ghost(0),
        }
    }

    /// Parses one line of text as a move request: exactly two numeric
    /// tokens (decimal digits after an optional leading plus sign)
    /// separated by arbitrary whitespace, read as zero-based row and
    /// column.
    pub fn parse_input(input: &str) -> (parsed: Option<(usize, usize)>)
        ensures
            parsed == spec_parse_input(input@),
    {
        let n = input.unicode_len();
        let a0 = next_token_start(input, 0, n);
        if a0 == n {
            proof {
                assert(spec_tokens(input@) =~= Seq::<Seq<char>>::empty());
            }
            return None;
        }
        let b0 = next_token_end(input, a0, n);
        proof {
            crate::parse::lemma_token_end_bounds(input@, a0 as int);
        }
        let a1 = next_token_start(input, b0, n);
        if a1 == n {
            proof {
                assert(tokens_from(input@, b0 as int) =~= Seq::<Seq<char>>::empty());
                assert(spec_tokens(input@).len() == 1);
            }
            return None;
        }
        let b1 = next_token_end(input, a1, n);
        proof {
            crate::parse::lemma_token_end_bounds(input@, a1 as int);
        }
        let a2 = next_token_start(input, b1, n);
        if a2 < n {
            proof {
                assert(tokens_from(input@, b1 as int).len() >= 1);
                assert(tokens_from(input@, b0 as int).len() >= 2);
                assert(spec_tokens(input@).len() >= 3);
            }
            return None;
        }
        proof {
            assert(tokens_from(input@, b1 as int) =~= Seq::<Seq<char>>::empty());
            assert(tokens_from(input@, b0 as int) =~= seq![
                input@.subrange(a1 as int, b1 as int),
            ]);
            assert(spec_tokens(input@) =~= seq![
                input@.subrange(a0 as int, b0 as int),
                input@.subrange(a1 as int, b1 as int),
            ]);
        }
        let row_parsed = parse_usize_token(input, a0, b0, n);
        let col_parsed = parse_usize_token(input, a1, b1, n);
        match (row_parsed, col_parsed) {
            (Some(row), Some(col)) => Some((row, col)),
            _ => None,
        }
    }

    /// Plays one turn from one offered line of input. A malformed line, an
    /// out-of-range coordinate pair or an occupied cell rejects the move
    /// and changes nothing; an accepted move occupies the cell with the
    /// current player's marker, counts one ply, and either ends the game
    /// (the turn stays with the winner) or passes the turn to the other
    /// player.
    pub fn play_turn(&mut self, line: &str) -> (outcome: TurnOutcome)
        requires
            old(self).wf(),
            old(self).turn_tracks_plies(),
            spec_winner(old(self)@.board) is None,
        ensures
            final(self).wf(),
            final(self)@.players == old(self)@.players,
            outcome == spec_outcome(old(self)@.board, old(self)@.current_marker(), line@),
            final(self)@.board == spec_board_after(
                old(self)@.board,
                old(self)@.current_marker(),
                line@,
            ),
            final(self)@.turn == if outcome == TurnOutcome::Moved {
                toggle(old(self)@.turn)
            } else {
                old(self)@.turn
            },
            final(self)@.plies == old(self)@.plies + if accepted(outcome) {
                1nat
            } else {
                0nat
            },
            outcome != TurnOutcome::Won ==> final(self).turn_tracks_plies(),
            outcome == TurnOutcome::Won <==> spec_winner(final(self)@.board) is Some,
            !accepted(outcome) ==> final(self)@.board == old(self)@.board,
    {
        let parsed = Self::parse_input(line);
        match parsed {
            None => TurnOutcome::MalformedInput,
            Some((row, col)) => {
                if row >= 3 || col >= 3 {
                    TurnOutcome::OutOfRangeMove
                } else {
                    let marker = self.players[self.current_turn].marker;
                    let move_accepted = self.board.make_move(row, col, marker);
                    if move_accepted {
                        self.plies = Ghost(self.plies@ + 1);
                        let line_won = self.board.check_winner();
                        match line_won {
                            Some(_) => TurnOutcome::Won,
                            None => {
                                self.current_turn = 1 - self.current_turn;
                                TurnOutcome::Moved
                            },
                        }
                    } else {
                        TurnOutcome::CellOccupied
                    }
                }
            },
        }
    }

    /// The player whose turn it is; after a winning move this is still the
    /// winner, since the turn does not pass.
    pub fn current_player(&self) -> (player: &Player)
        requires
            self.wf(),
        ensures
            *player == self@.players[self@.turn as int],
    {
        &self.players[self.current_turn]
    }

    /// A read-only view of the board, for rendering.
    pub fn board(&self) -> (board: &Board)
        ensures
            board@ == self@.board,
    {
        &self.board
    }

    /// The marker occupying a complete line, if one exists.
    pub fn winner(&self) -> (winner: Option<char>)
        ensures
            winner == spec_winner(self@.board),
    {
        self.board.check_winner()
    }
}

} // verus!
