use game_lib::game::{Game, Mode, State};
use game_lib::game_engine::{change_status, edit_board, ttt_cnct_four_board_check};
use game_lib::player::Sprite;

fn board_from(tokens: &[&str]) -> Vec<Sprite> {
    tokens.iter().map(|t| Sprite::new(t)).collect()
}

#[test]
fn full_row_wins() {
    let x = Sprite::new("X");
    let board = board_from(&["X", "X", "X", "O", " ", "O", " ", " ", " "]);
    assert!(ttt_cnct_four_board_check(&board, 3, &x));
    let board = board_from(&[" ", " ", " ", "X", "X", "X", "O", "O", " "]);
    assert!(ttt_cnct_four_board_check(&board, 3, &x));
}

#[test]
fn full_column_wins() {
    let o = Sprite::new("O");
    let board = board_from(&["O", "X", " ", "O", "X", " ", "O", " ", "X"]);
    assert!(ttt_cnct_four_board_check(&board, 3, &o));
    let board = board_from(&["X", " ", "O", " ", "X", "O", "X", " ", "O"]);
    assert!(ttt_cnct_four_board_check(&board, 3, &o));
}

#[test]
fn full_main_diagonal_wins() {
    let x = Sprite::new("X");
    let board = board_from(&["X", "O", " ", "O", "X", " ", " ", " ", "X"]);
    assert!(ttt_cnct_four_board_check(&board, 3, &x));
}

#[test]
fn full_anti_diagonal_wins() {
    let x = Sprite::new("X");
    let board = board_from(&["O", "O", "X", " ", "X", " ", "X", " ", " "]);
    assert!(ttt_cnct_four_board_check(&board, 3, &x));
}

#[test]
fn no_complete_line_means_no_win() {
    let x = Sprite::new("X");
    let o = Sprite::new("O");
    // A drawn board: no three in a row for either player.
    let board = board_from(&["X", "O", "X", "X", "O", "O", "O", "X", "X"]);
    assert!(!ttt_cnct_four_board_check(&board, 3, &x));
    assert!(!ttt_cnct_four_board_check(&board, 3, &o));
}

#[test]
fn a_line_wins_only_for_its_owner() {
    let x = Sprite::new("X");
    let o = Sprite::new("O");
    let board = board_from(&["X", "X", "X", "O", " ", "O", " ", " ", " "]);
    assert!(ttt_cnct_four_board_check(&board, 3, &x));
    assert!(!ttt_cnct_four_board_check(&board, 3, &o));
}

#[test]
fn size_four_lines_win_too() {
    let x = Sprite::new("X");
    let game = Game::connect_four();
    let o = Sprite::new("O");
    // Stack four X markers in column 2 (cells 13, 9, 5, 1).
    let mut board = game.board;
    for _ in 0..4 {
        board = edit_board(board, game.size, Mode::ConnectFour, &x, &o, 2);
    }
    assert!(ttt_cnct_four_board_check(&board, 4, &x));
}

#[test]
fn change_status_reports_a_win() {
    let x = Sprite::new("X");
    let mut game = Game::tic_tac_toe();
    game.board = board_from(&["X", "X", "X", "O", "O", " ", " ", " ", " "]);
    game.num_of_turns = 5;
    assert!(matches!(change_status(&game, &x), State::Won));
}

#[test]
fn change_status_reports_a_tie_only_on_a_full_board() {
    let x = Sprite::new("X");
    let mut game = Game::tic_tac_toe();
    game.board = board_from(&["X", "O", "X", "X", "O", "O", "O", "X", "X"]);
    game.num_of_turns = 9;
    assert!(matches!(change_status(&game, &x), State::Tie));
    game.num_of_turns = 8;
    assert!(matches!(change_status(&game, &x), State::NotOver));
}

#[test]
fn change_status_keeps_an_open_game_running() {
    let x = Sprite::new("X");
    let mut game = Game::tic_tac_toe();
    game.board = board_from(&["X", " ", " ", " ", " ", " ", " ", " ", " "]);
    game.num_of_turns = 1;
    assert!(matches!(change_status(&game, &x), State::NotOver));
}
