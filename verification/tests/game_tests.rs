use tic_tac_toe::game::{Game, TurnOutcome};

#[test]
fn test_parse_input_valid() {
    assert_eq!(Game::parse_input("0 1"), Some((0, 1)));
    assert_eq!(Game::parse_input("2 2"), Some((2, 2)));
    assert_eq!(Game::parse_input("12 34"), Some((12, 34)));
}

#[test]
fn test_parse_input_whitespace() {
    assert_eq!(Game::parse_input("  1\t 2 \n"), Some((1, 2)));
    assert_eq!(Game::parse_input("0 0\n"), Some((0, 0)));
}

#[test]
fn test_parse_input_malformed() {
    assert_eq!(Game::parse_input(""), None);
    assert_eq!(Game::parse_input("   \n"), None);
    assert_eq!(Game::parse_input("1"), None);
    assert_eq!(Game::parse_input("1 2 3"), None);
    assert_eq!(Game::parse_input("a b"), None);
    assert_eq!(Game::parse_input("1x 2"), None);
    assert_eq!(Game::parse_input("1 -2"), None);
}

#[test]
fn test_parse_input_plus_sign() {
    assert_eq!(Game::parse_input("+0 1"), Some((0, 1)));
    assert_eq!(Game::parse_input("1 +2"), Some((1, 2)));
    assert_eq!(Game::parse_input("+ 1"), None);
    assert_eq!(Game::parse_input("++1 2"), None);
}

#[test]
fn test_parse_input_unicode_whitespace() {
    assert_eq!(Game::parse_input("0\u{a0}1"), Some((0, 1)));
    assert_eq!(Game::parse_input("\u{2003}1 2\u{3000}"), Some((1, 2)));
    assert_eq!(Game::parse_input("0\u{a0}1 2"), None);
}

#[test]
fn test_parse_input_bounds() {
    let max_line = format!("{} 0", usize::MAX);
    assert_eq!(Game::parse_input(&max_line), Some((usize::MAX, 0)));
    assert_eq!(Game::parse_input("99999999999999999999999999 1"), None);
}

#[test]
fn test_new_game_players() {
    let game = Game::new();
    let first = game.current_player();
    assert_eq!(first.name, "Player 1");
    assert_eq!(first.marker, 'X');
    assert_eq!(game.winner(), None);
}

#[test]
fn test_turn_toggles_once_per_accepted_move() {
    let mut game = Game::new();
    assert_eq!(game.current_player().marker, 'X');

    // A rejected line never advances the turn.
    assert_eq!(game.play_turn("nonsense"), TurnOutcome::MalformedInput);
    assert_eq!(game.current_player().marker, 'X');
    assert_eq!(game.play_turn("3 0"), TurnOutcome::OutOfRangeMove);
    assert_eq!(game.current_player().marker, 'X');

    // An accepted move toggles the turn exactly once.
    assert_eq!(game.play_turn("0 0"), TurnOutcome::Moved);
    assert_eq!(game.current_player().marker, 'O');

    // A move onto the occupied cell is rejected, turn unchanged.
    assert_eq!(game.play_turn("0 0"), TurnOutcome::CellOccupied);
    assert_eq!(game.current_player().marker, 'O');

    assert_eq!(game.play_turn("1 1"), TurnOutcome::Moved);
    assert_eq!(game.current_player().marker, 'X');
}

#[test]
fn test_game_won_by_row() {
    let mut game = Game::new();
    assert_eq!(game.play_turn("0 0"), TurnOutcome::Moved); // X
    assert_eq!(game.play_turn("1 1"), TurnOutcome::Moved); // O
    assert_eq!(game.play_turn("0 1"), TurnOutcome::Moved); // X
    assert_eq!(game.play_turn("2 2"), TurnOutcome::Moved); // O
    assert_eq!(game.play_turn("0 2"), TurnOutcome::Won); // X completes the row

    assert_eq!(game.winner(), Some('X'));
    // The turn did not pass: the winner is still the current player.
    assert_eq!(game.current_player().name, "Player 1");
    assert_eq!(game.current_player().marker, 'X');
}

#[test]
fn test_game_board_view() {
    let mut game = Game::new();
    game.play_turn("0 0"); // X
    game.play_turn("1 1"); // O

    assert_eq!(game.board().cell(0, 0), 'X');
    assert_eq!(game.board().cell(1, 1), 'O');
    assert_eq!(game.board().cell(2, 2), ' ');
    assert_eq!(game.winner(), None);
}
