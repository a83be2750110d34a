use game_lib::game::{acceptable_board_size, Game, Mode, State};
use game_lib::game_engine::play_move;
use game_lib::player::{ControlMode, Sprite};

#[test]
fn fresh_tic_tac_toe_board() {
    let game = Game::tic_tac_toe();
    assert_eq!(game.name, "Tic-Tac-Toe");
    assert!(matches!(game.current_mode, Mode::TicTacToe));
    assert!(matches!(game.current_state, State::NotOver));
    assert_eq!(game.size, 3);
    assert_eq!(game.num_of_turns, 0);
    assert_eq!(game.board.len(), 9);
    for cell in &game.board {
        assert_eq!(cell.0, " ");
    }
}

#[test]
fn fresh_connect_four_board() {
    let game = Game::connect_four();
    assert_eq!(game.name, "Connect-4");
    assert!(matches!(game.current_mode, Mode::ConnectFour));
    assert!(matches!(game.current_state, State::NotOver));
    assert_eq!(game.size, 4);
    assert_eq!(game.num_of_turns, 0);
    assert_eq!(game.board.len(), 16);
    for cell in &game.board {
        assert_eq!(cell.0, " ");
    }
}

#[test]
fn fresh_chess_and_checkers_boards() {
    let chess = Game::chess();
    assert_eq!(chess.name, "Chess");
    assert!(matches!(chess.current_mode, Mode::Chess));
    assert_eq!(chess.size, 8);
    assert_eq!(chess.board.len(), 64);
    let checkers = Game::checkers();
    assert_eq!(checkers.name, "Checkers");
    assert!(matches!(checkers.current_mode, Mode::Checkers));
    assert_eq!(checkers.size, 8);
    assert_eq!(checkers.board.len(), 64);
}

#[test]
fn fresh_board_of_size_five() {
    let game = Game::new(String::from("Big Grid"), Mode::TicTacToe, 5);
    assert_eq!(game.board.len(), 25);
    assert_eq!(game.num_of_turns, 0);
    for cell in &game.board {
        assert_eq!(cell.0, " ");
    }
}

#[test]
fn reset_clears_the_game() {
    let mut game = Game::tic_tac_toe();
    let x = Sprite::new("X");
    let o = Sprite::new("O");
    play_move(&mut game, &x, &o, 5);
    assert_eq!(game.num_of_turns, 1);
    assert_eq!(game.board[4].0, "X");
    game.reset();
    assert_eq!(game.num_of_turns, 0);
    assert!(matches!(game.current_state, State::NotOver));
    assert_eq!(game.board.len(), 9);
    for cell in &game.board {
        assert_eq!(cell.0, " ");
    }
}

#[test]
fn update_turns_counts_one_move() {
    let mut game = Game::tic_tac_toe();
    game.update_turns();
    game.update_turns();
    assert_eq!(game.num_of_turns, 2);
}

#[test]
fn acceptable_board_sizes() {
    assert!(!acceptable_board_size(0));
    assert!(!acceptable_board_size(1));
    assert!(!acceptable_board_size(2));
    assert!(acceptable_board_size(3));
    assert!(acceptable_board_size(4));
    assert!(acceptable_board_size(100));
}

#[test]
fn mode_from_menu_selection() {
    assert!(matches!(Mode::from_selection(1), Some(Mode::TicTacToe)));
    assert!(matches!(Mode::from_selection(2), Some(Mode::ConnectFour)));
    assert!(matches!(Mode::from_selection(3), Some(Mode::Chess)));
    assert!(matches!(Mode::from_selection(4), Some(Mode::Checkers)));
    assert!(Mode::from_selection(0).is_none());
    assert!(Mode::from_selection(5).is_none());
}

#[test]
fn control_mode_from_menu_selection() {
    assert!(matches!(ControlMode::from_selection(1), Some(ControlMode::Human)));
    assert!(matches!(ControlMode::from_selection(2), Some(ControlMode::Ai)));
    assert!(ControlMode::from_selection(0).is_none());
    assert!(ControlMode::from_selection(3).is_none());
}
