use tic_tac_toe::board::Board;

#[test]
fn test_make_move_success() {
    let mut board = Board::new();

    assert!(board.make_move(0, 0, 'X'));

    assert_eq!(board.cell(0, 0), 'X');
}

#[test]
fn test_make_move_failure() {
    let mut board = Board::new();

    board.make_move(0, 0, 'X');

    assert!(!board.make_move(0, 0, 'O'));
    assert_eq!(board.cell(0, 0), 'X')
}

#[test]
fn test_check_winner_row() {
    let mut board = Board::new();

    board.make_move(0, 0, 'X');
    board.make_move(0, 1, 'X');
    board.make_move(0, 2, 'X');

    assert_eq!(board.check_winner(), Some('X')); // Row winner
}

#[test]
fn test_check_winner_diagonal() {
    let mut board = Board::new();

    board.make_move(0, 0, 'O');
    board.make_move(1, 1, 'O');
    board.make_move(2, 2, 'O');

    assert_eq!(board.check_winner(), Some('O')); // Diagonal winner
}

#[test]
fn test_check_no_winner() {
    let mut board = Board::new();

    board.make_move(0, 0, 'X');
    board.make_move(1, 1, 'O');

    assert_eq!(board.check_winner(), None); // No winner yet
}

#[test]
fn test_full_game() {
    let mut game = Board::new();
    assert!(game.make_move(0, 0, 'X'));
    assert!(game.make_move(1, 1, 'O'));
    assert!(game.make_move(0, 1, 'X'));
    assert!(game.make_move(2, 2, 'O'));
    assert!(game.make_move(0, 2, 'X'));

    assert_eq!(game.check_winner(), Some('X'));
}

#[test]
fn test_check_winner_column() {
    let mut board = Board::new();

    board.make_move(0, 1, 'X');
    board.make_move(1, 1, 'X');
    board.make_move(2, 1, 'X');

    assert_eq!(board.check_winner(), Some('X'));
}

#[test]
fn test_check_winner_anti_diagonal() {
    let mut board = Board::new();

    board.make_move(0, 2, 'O');
    board.make_move(1, 1, 'O');
    board.make_move(2, 0, 'O');

    assert_eq!(board.check_winner(), Some('O'));
}

#[test]
fn test_new_board_is_empty() {
    let board = Board::new();

    for row in 0..3 {
        for col in 0..3 {
            assert_eq!(board.cell(row, col), ' ');
        }
    }
    assert_eq!(board.check_winner(), None);
}

#[test]
fn test_render_board() {
    let mut board = Board::new();
    board.make_move(0, 0, 'X');
    board.make_move(1, 1, 'O');

    let expected =
        " X |   |   \n---|---|---\n   | O |   \n---|---|---\n   |   |   \n---|---|---\n";
    assert_eq!(board.render(), expected);
}

#[test]
fn test_render_empty_board() {
    let board = Board::new();

    let divider = "---|---|---\n";
    let blank_row = "   |   |   \n";
    let expected = format!(
        "{}{}{}{}{}{}",
        blank_row, divider, blank_row, divider, blank_row, divider
    );
    assert_eq!(board.render(), expected);
}
