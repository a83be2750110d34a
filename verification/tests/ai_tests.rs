use game_lib::ai_engine::{get_valid_moves, simple_think};
use game_lib::game::{Game, Mode};
use game_lib::game_engine::edit_board;
use game_lib::player::Sprite;

#[test]
fn valid_moves_list_the_free_cells_in_order() {
    let x = Sprite::new("X");
    let o = Sprite::new("O");
    let game = Game::tic_tac_toe();
    let board = edit_board(game.board, game.size, Mode::TicTacToe, &x, &o, 1);
    let board = edit_board(board, game.size, Mode::TicTacToe, &o, &x, 5);
    let board = edit_board(board, game.size, Mode::TicTacToe, &x, &o, 9);
    let moves = get_valid_moves(&board, game.size, Mode::TicTacToe);
    assert_eq!(moves, vec![2, 3, 4, 6, 7, 8]);
}

#[test]
fn valid_moves_on_a_fresh_board_are_all_cells() {
    let game = Game::tic_tac_toe();
    let moves = get_valid_moves(&game.board, game.size, Mode::TicTacToe);
    assert_eq!(moves, vec![1, 2, 3, 4, 5, 6, 7, 8, 9]);
}

#[test]
fn valid_moves_in_connect_four_are_the_open_columns() {
    let x = Sprite::new("X");
    let o = Sprite::new("O");
    let game = Game::connect_four();
    let moves = get_valid_moves(&game.board, game.size, Mode::ConnectFour);
    assert_eq!(moves, vec![1, 2, 3, 4]);
    // Fill column 2 to the top; it drops out of the list.
    let mut board = game.board;
    for _ in 0..4 {
        board = edit_board(board, game.size, Mode::ConnectFour, &x, &o, 2);
    }
    let moves = get_valid_moves(&board, game.size, Mode::ConnectFour);
    assert_eq!(moves, vec![1, 3, 4]);
}

#[test]
fn reserved_modes_offer_no_moves() {
    let game = Game::chess();
    assert!(get_valid_moves(&game.board, game.size, Mode::Chess).is_empty());
    let game = Game::checkers();
    assert!(get_valid_moves(&game.board, game.size, Mode::Checkers).is_empty());
}

#[test]
fn the_computer_takes_the_last_free_cell() {
    let x = Sprite::new("X");
    let o = Sprite::new("O");
    let game = Game::tic_tac_toe();
    // Occupy everything but cell 6.
    let mut board = game.board;
    for selection in [1, 2, 3, 4, 5, 7, 8, 9] {
        board = edit_board(board, game.size, Mode::TicTacToe, &x, &o, selection);
    }
    assert_eq!(simple_think(&board, game.size, Mode::TicTacToe), 6);
}

#[test]
fn the_computer_takes_the_last_open_column() {
    let x = Sprite::new("X");
    let o = Sprite::new("O");
    let game = Game::connect_four();
    // Fill columns 1, 2 and 4 to the top; only column 3 stays open.
    let mut board = game.board;
    for column in [1, 2, 4] {
        for _ in 0..4 {
            board = edit_board(board, game.size, Mode::ConnectFour, &x, &o, column);
        }
    }
    assert_eq!(simple_think(&board, game.size, Mode::ConnectFour), 3);
}

#[test]
fn the_computer_always_picks_a_valid_move() {
    let game = Game::tic_tac_toe();
    for _ in 0..32 {
        let pick = simple_think(&game.board, game.size, Mode::TicTacToe);
        assert!((1..=9).contains(&pick));
    }
}
