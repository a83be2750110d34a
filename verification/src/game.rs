use vstd::prelude::*;

use crate::player::{empty_mark, Sprite};

verus! {

/// The outcome state of a game. `NotOver` is the only state from which a
/// move may be played; `Won` and `Tie` are terminal until an explicit reset.
#[derive(Debug, PartialEq, Eq, Structural, Clone, Copy)]
pub enum State {
    /// The game is still running.
    NotOver,
    /// A player has completed a full line.
    Won,
    /// The board filled up with no winner.
    Tie,
}

/// The rule family a game is played under. It selects the placement rule:
/// `ConnectFour` drops markers down a column, every other mode places them
/// directly. `Chess` and `Checkers` are accepted values with no rules of
/// their own; they place like `TicTacToe`.
#[derive(Debug, PartialEq, Eq, Structural, Clone, Copy)]
pub enum Mode {
    /// Direct placement on a 3x3 board by default.
    TicTacToe,
    /// Gravity placement on a 4x4 board by default.
    ConnectFour,
    /// Reserved mode; places directly.
    Chess,
    /// Reserved mode; places directly.
    Checkers,
}

/// Why a move was turned away.
#[derive(Debug, PartialEq, Eq, Structural, Clone, Copy)]
pub enum MoveError {
    /// The selection was `0` or beyond the last cell of the board.
    OutOfRange,
    /// The selected cell already holds one of the two players' markers.
    CellOccupied,
    /// In a gravity mode the selection must name one of the first `size`
    /// cells, the column heads.
    InvalidColumn,
}

/// The validator's verdict on a move.
#[derive(Debug, PartialEq, Eq, Structural, Clone, Copy)]
pub enum MoveStatus {
    /// The move may be applied.
    Valid,
    /// The move was rejected for the given reason.
    Invalid(MoveError),
}

/// A game: its display name, rule mode, outcome state, board, board axis
/// length, and the number of moves applied so far.
///
/// The board is a row-major sequence of `size * size` sprites; the cell in
/// row `r` and column `c` sits at index `r * size + c`.
#[derive(Debug, Clone)]
pub struct Game {
    /// The display name of the game.
    pub name: String,
    /// The rule family the game is played under.
    pub current_mode: Mode,
    /// The outcome state.
    pub current_state: State,
    /// The cells, row-major.
    pub board: Vec<Sprite>,
    /// The length of one axis of the square board.
    pub size: usize,
    /// How many moves have been applied since the last reset.
    pub num_of_turns: usize,
}

impl Game {
    /// The structural soundness of a game: the board covers the square,
    /// the axis is long enough for a line game, and the turn counter never
    /// passes the board's capacity (and reaches it only once the game is
    /// over).
    pub open spec fn wf(&self) -> bool {
        &&& self.board@.len() == self.size * self.size
        &&& 3 <= self.size
        &&& self.num_of_turns <= self.size * self.size
        &&& (self.current_state == State::NotOver ==> self.num_of_turns < self.size
            * self.size)
    }

    /// A fresh game of an arbitrary mode and size: an all-empty board and a
    /// zeroed turn counter.
    pub fn new(name: String, new_mode: Mode, size: usize) -> (r: Game)
        requires
            3 <= size,
            size * size <= usize::MAX,
        ensures
            r.name@ == name@,
            r.current_mode == new_mode,
            r.current_state == State::NotOver,
            r.size == size,
            r.num_of_turns == 0,
            r.board@.len() == size * size,
            forall|i: int| 0 <= i < r.board@.len() ==> r.board@[i]@ == empty_mark(),
            r.wf(),
    {
        proof {
            lemma_square_positive(size as int);
        }
        Game {
            name,
            current_mode: new_mode,
            current_state: State::NotOver,
            board: empty_board(size * size),
            size,
            num_of_turns: 0,
        }
    }

    /// A fresh Tic-Tac-Toe game: nine empty cells on a 3x3 board.
    pub fn tic_tac_toe() -> (r: Game)
        ensures
            r.name@ == "Tic-Tac-Toe"@,
            r.current_mode == Mode::TicTacToe,
            r.current_state == State::NotOver,
            r.size == 3,
            r.num_of_turns == 0,
            r.board@.len() == 9,
            forall|i: int| 0 <= i < r.board@.len() ==> r.board@[i]@ == empty_mark(),
            r.wf(),
    {
        Game::new("Tic-Tac-Toe".to_owned(), Mode::TicTacToe, 3)
    }

    /// A fresh Connect-4 game: sixteen empty cells on a 4x4 board.
    pub fn connect_four() -> (r: Game)
        ensures
            r.name@ == "Connect-4"@,
            r.current_mode == Mode::ConnectFour,
            r.current_state == State::NotOver,
            r.size == 4,
            r.num_of_turns == 0,
            r.board@.len() == 16,
            forall|i: int| 0 <= i < r.board@.len() ==> r.board@[i]@ == empty_mark(),
            r.wf(),
    {
        Game::new("Connect-4".to_owned(), Mode::ConnectFour, 4)
    }

    /// A fresh game in the reserved Chess mode: an 8x8 board of empty cells.
    pub fn chess() -> (r: Game)
        ensures
            r.name@ == "Chess"@,
            r.current_mode == Mode::Chess,
            r.current_state == State::NotOver,
            r.size == 8,
            r.num_of_turns == 0,
            r.board@.len() == 64,
            forall|i: int| 0 <= i < r.board@.len() ==> r.board@[i]@ == empty_mark(),
            r.wf(),
    {
        Game::new("Chess".to_owned(), Mode::Chess, 8)
    }

    /// A fresh game in the reserved Checkers mode: an 8x8 board of empty
    /// cells.
    pub fn checkers() -> (r: Game)
        ensures
            r.name@ == "Checkers"@,
            r.current_mode == Mode::Checkers,
            r.current_state == State::NotOver,
            r.size == 8,
            r.num_of_turns == 0,
            r.board@.len() == 64,
            forall|i: int| 0 <= i < r.board@.len() ==> r.board@[i]@ == empty_mark(),
            r.wf(),
    {
        Game::new("Checkers".to_owned(), Mode::Checkers, 8)
    }

    /// Clears the board, zeroes the turn counter and reopens the game. The
    /// name, mode and size stay as they were.
    pub fn reset(&mut self)
        requires
            old(self).size * old(self).size <= usize::MAX,
        ensures
            final(self).name@ == old(self).name@,
            final(self).current_mode == old(self).current_mode,
            final(self).size == old(self).size,
            final(self).current_state == State::NotOver,
            final(self).num_of_turns == 0,
            final(self).board@.len() == final(self).size * final(self).size,
            forall|i: int|
                0 <= i < final(self).board@.len() ==> final(self).board@[i]@ == empty_mark(),
            3 <= old(self).size ==> final(self).wf(),
    {
        proof {
            if 3 <= self.size {
                lemma_square_positive(self.size as int);
            }
        }
        self.board = empty_board(self.size * self.size);
        self.num_of_turns = 0;
        self.current_state = State::NotOver;
    }

    /// Counts one more applied move.
    pub fn update_turns(&mut self)
        requires
            old(self).num_of_turns < usize::MAX,
        ensures
            final(self).num_of_turns == old(self).num_of_turns + 1,
            final(self).name@ == old(self).name@,
            final(self).current_mode == old(self).current_mode,
            final(self).current_state == old(self).current_state,
            final(self).board@ == old(self).board@,
            final(self).size == old(self).size,
    {
        self.num_of_turns = self.num_of_turns + 1;
    }
}

impl Mode {
    /// Decodes a menu selection into a mode: `1` through `4` name the four
    /// modes in order, anything else names none.
    pub fn from_selection(selection: usize) -> (r: Option<Mode>)
        ensures
            (r == Some(Mode::TicTacToe)) <==> selection == 1,
            (r == Some(Mode::ConnectFour)) <==> selection == 2,
            (r == Some(Mode::Chess)) <==> selection == 3,
            (r == Some(Mode::Checkers)) <==> selection == 4,
            (r == None::<Mode>) <==> (selection == 0 || selection > 4),
    {
        match selection {
            1 => Some(Mode::TicTacToe),
            2 => Some(Mode::ConnectFour),
            3 => Some(Mode::Chess),
            4 => Some(Mode::Checkers),
            _ => None,
        }
    }
}

/// Whether a requested board axis length can back a playable game: at
/// least 3, and small enough that the full board area still fits the
/// machine's word.
pub fn acceptable_board_size(value: usize) -> (r: bool)
    ensures
        r == (3 <= value && value * value <= usize::MAX),
{
    if value < 3 {
        return false;
    }
    let v: u128 = value as u128;
    proof {
        assert(v * v <= u128::MAX) by (nonlinear_arith)
            requires
                v <= 0xFFFF_FFFF_FFFF_FFFFu128,
        ;
    }
    let square: u128 = v * v;
    square <= usize::MAX as u128
}

/// A positive axis length spans at least one cell.
proof fn lemma_square_positive(size: int)
    requires
        1 <= size,
    ensures
        1 <= size * size,
{
    assert(1 <= size * size) by (nonlinear_arith)
        requires
            1 <= size,
    ;
}

/// A row-major board of `len` unclaimed cells.
fn empty_board(len: usize) -> (r: Vec<Sprite>)
    ensures
        r@.len() == len,
        forall|i: int| 0 <= i < r@.len() ==> r@[i]@ == empty_mark(),
{
    let mut board: Vec<Sprite> = Vec::new();
    let mut i: usize = 0;
    while i < len
        invariant
            i <= len,
            board@.len() == i,
            forall|j: int| 0 <= j < i ==> board@[j]@ == empty_mark(),
        decreases len - i,
    {
        board.push(Sprite::default());
        i = i + 1;
    }
    board
}

} // verus!
