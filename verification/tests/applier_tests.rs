use game_lib::game::{Game, Mode};
use game_lib::game_engine::edit_board;
use game_lib::player::Sprite;

#[test]
fn tic_tac_toe_places_exactly_the_selected_cell() {
    let x = Sprite::new("X");
    let o = Sprite::new("O");
    let game = Game::tic_tac_toe();
    let board = edit_board(game.board, game.size, Mode::TicTacToe, &x, &o, 5);
    for (index, cell) in board.iter().enumerate() {
        if index == 4 {
            assert_eq!(cell.0, "X");
        } else {
            assert_eq!(cell.0, " ");
        }
    }
}

#[test]
fn reserved_modes_place_directly_like_tic_tac_toe() {
    let x = Sprite::new("X");
    let o = Sprite::new("O");
    for mode in [Mode::Chess, Mode::Checkers] {
        let game = Game::new(String::from("Any"), mode, 3);
        let board = edit_board(game.board, game.size, mode, &x, &o, 7);
        for (index, cell) in board.iter().enumerate() {
            if index == 6 {
                assert_eq!(cell.0, "X");
            } else {
                assert_eq!(cell.0, " ");
            }
        }
    }
}

#[test]
fn gravity_drop_lands_on_the_bottom_row() {
    let x = Sprite::new("X");
    let o = Sprite::new("O");
    let game = Game::connect_four();
    // Column 1 is cells 0, 4, 8, 12; the bottom row is index 12.
    let board = edit_board(game.board, game.size, Mode::ConnectFour, &x, &o, 1);
    assert_eq!(board[12].0, "X");
    for (index, cell) in board.iter().enumerate() {
        if index != 12 {
            assert_eq!(cell.0, " ");
        }
    }
}

#[test]
fn second_gravity_drop_stacks_right_above_the_first() {
    let x = Sprite::new("X");
    let o = Sprite::new("O");
    let game = Game::connect_four();
    let board = edit_board(game.board, game.size, Mode::ConnectFour, &x, &o, 1);
    let board = edit_board(board, game.size, Mode::ConnectFour, &o, &x, 1);
    assert_eq!(board[12].0, "X");
    assert_eq!(board[8].0, "O");
    let board = edit_board(board, game.size, Mode::ConnectFour, &x, &o, 1);
    assert_eq!(board[4].0, "X");
    assert_eq!(board[0].0, " ");
}

#[test]
fn first_drop_in_each_column_lands_on_the_bottom_row() {
    let x = Sprite::new("X");
    let o = Sprite::new("O");
    let game = Game::connect_four();
    // Three drops into column 1 stack up its cells 12, 8, 4; the first
    // drop into each further column lands on the bottom row: 13, 14, 15.
    let mut board = game.board;
    board = edit_board(board, game.size, Mode::ConnectFour, &x, &o, 1);
    board = edit_board(board, game.size, Mode::ConnectFour, &o, &x, 1);
    board = edit_board(board, game.size, Mode::ConnectFour, &x, &o, 1);
    assert_eq!(board[12].0, "X");
    assert_eq!(board[8].0, "O");
    assert_eq!(board[4].0, "X");
    board = edit_board(board, game.size, Mode::ConnectFour, &o, &x, 2);
    board = edit_board(board, game.size, Mode::ConnectFour, &x, &o, 3);
    board = edit_board(board, game.size, Mode::ConnectFour, &o, &x, 4);
    assert_eq!(board[13].0, "O");
    assert_eq!(board[14].0, "X");
    assert_eq!(board[15].0, "O");
}
