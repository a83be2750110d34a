use vstd::prelude::*;

use crate::game::{Game, Mode, MoveError, MoveStatus, State};
use crate::player::{empty_mark, Sprite};

verus! {

// ---------------------------------------------------------------------------
// The board model.
//
// A board is a row-major sequence of `size * size` sprites; the cell in row
// `r` and column `c` sits at index `r * size + c`. The spec functions below
// read boards through that lens; the executable engine is proved against
// them.
// ---------------------------------------------------------------------------
/// The token in row `row`, column `col` of a row-major board.
pub open spec fn cell(board: Seq<Sprite>, size: int, row: int, col: int) -> Seq<char> {
    board[row * size + col]@
}

/// Whether the cell at `row`, `col` is unclaimed.
pub open spec fn cell_open(board: Seq<Sprite>, size: int, row: int, col: int) -> bool {
    cell(board, size, row, col) == empty_mark()
}

/// A selection names a cell of the board: it is 1-based and at most
/// `size * size`.
pub open spec fn selection_in_range(size: int, selection: int) -> bool {
    1 <= selection <= size * size
}

/// The cell at (0-based) index `i` already holds one of the two players'
/// markers.
pub open spec fn cell_taken(
    board: Seq<Sprite>,
    current: Seq<char>,
    other: Seq<char>,
    i: int,
) -> bool {
    board[i]@ == current || board[i]@ == other
}

/// All the conditions under which a move is accepted: the selection names a
/// cell, that cell holds neither player's marker, and in a gravity mode the
/// selection stays within the first `size` cells, the column heads.
pub open spec fn move_allowed(
    board: Seq<Sprite>,
    size: int,
    mode: Mode,
    current: Seq<char>,
    other: Seq<char>,
    selection: int,
) -> bool {
    &&& selection_in_range(size, selection)
    &&& !cell_taken(board, current, other, selection - 1)
    &&& !(mode == Mode::ConnectFour && selection > size)
}

/// Every cell of the board holds the unclaimed sentinel or one of the two
/// players' markers.
pub open spec fn cells_valid(board: Seq<Sprite>, a: Seq<char>, b: Seq<char>) -> bool {
    forall|i: int|
        0 <= i < board.len() ==> (board[i]@ == empty_mark() || board[i]@ == a || board[i]@ == b)
}

/// Distinct rows and columns address distinct board indices.
proof fn lemma_cell_index(size: int, row: int, col: int)
    requires
        0 <= row < size,
        0 <= col < size,
    ensures
        0 <= row * size + col < size * size,
{
    assert(0 <= row * size + col < size * size) by (nonlinear_arith)
        requires
            0 <= row < size,
            0 <= col < size,
    ;
}

/// An axis never exceeds the full board area.
pub proof fn lemma_square_bounds(size: int)
    requires
        0 <= size,
    ensures
        size <= size * size,
{
    assert(size <= size * size) by (nonlinear_arith)
        requires
            0 <= size,
    ;
}

/// Row-major addressing is one to one: equal indices mean the same row and
/// column.
proof fn lemma_cell_index_injective(size: int, r1: int, c1: int, r2: int, c2: int)
    requires
        0 <= r1 < size,
        0 <= c1 < size,
        0 <= r2 < size,
        0 <= c2 < size,
        r1 * size + c1 == r2 * size + c2,
    ensures
        r1 == r2,
        c1 == c2,
{
    assert(r1 == r2 && c1 == c2) by (nonlinear_arith)
        requires
            0 <= r1 < size,
            0 <= c1 < size,
            0 <= r2 < size,
            0 <= c2 < size,
            r1 * size + c1 == r2 * size + c2,
    ;
}

// ---------------------------------------------------------------------------
// Lines of the board.
// ---------------------------------------------------------------------------
/// Row `row` is fully occupied by `mark`.
pub open spec fn row_filled(board: Seq<Sprite>, size: int, row: int, mark: Seq<char>) -> bool {
    forall|c: int| 0 <= c < size ==> cell(board, size, row, c) == mark
}

/// Column `col` is fully occupied by `mark`.
pub open spec fn column_filled(board: Seq<Sprite>, size: int, col: int, mark: Seq<char>) -> bool {
    forall|r: int| 0 <= r < size ==> cell(board, size, r, col) == mark
}

/// The token on the main diagonal, `k` cells in from the top-left corner.
pub open spec fn diagonal_cell(board: Seq<Sprite>, size: int, k: int) -> Seq<char> {
    cell(board, size, k, k)
}

/// The main diagonal, from the top-left corner to the bottom-right one, is
/// fully occupied by `mark`.
pub open spec fn diagonal_filled(board: Seq<Sprite>, size: int, mark: Seq<char>) -> bool {
    forall|k: int| 0 <= k < size ==> diagonal_cell(board, size, k) == mark
}

/// The token on the anti-diagonal, `k` rows down from the top-right corner.
pub open spec fn anti_diagonal_cell(board: Seq<Sprite>, size: int, k: int) -> Seq<char> {
    cell(board, size, k, size - 1 - k)
}

/// The anti-diagonal, from the top-right corner to the bottom-left one, is
/// fully occupied by `mark`.
pub open spec fn anti_diagonal_filled(board: Seq<Sprite>, size: int, mark: Seq<char>) -> bool {
    forall|k: int| 0 <= k < size ==> anti_diagonal_cell(board, size, k) == mark
}

/// `mark` holds a full row, column, main diagonal or anti-diagonal: the
/// winning condition of the line games, for any board size.
pub open spec fn winning_position(board: Seq<Sprite>, size: int, mark: Seq<char>) -> bool {
    ||| exists|r: int| 0 <= r < size && row_filled(board, size, r, mark)
    ||| exists|c: int| 0 <= c < size && column_filled(board, size, c, mark)
    ||| diagonal_filled(board, size, mark)
    ||| anti_diagonal_filled(board, size, mark)
}

// ---------------------------------------------------------------------------
// Gravity placement.
// ---------------------------------------------------------------------------
/// A column obeys gravity: below an occupied cell there is never an empty
/// one. Boards that only ever grow through gravity drops keep this shape.
pub open spec fn column_stacked(board: Seq<Sprite>, size: int, col: int) -> bool {
    forall|r: int|
        0 <= r < size - 1 && !#[trigger] cell_open(board, size, r, col) ==> !cell_open(
            board,
            size,
            r + 1,
            col,
        )
}

/// The landing row of a drop into `col`, scanned upward from row `hi`: the
/// lowest empty row at or below `hi`, or row 0 when none is empty.
pub open spec fn landing_rec(board: Seq<Sprite>, size: int, col: int, hi: int) -> int
    decreases hi,
{
    if hi <= 0 {
        0
    } else if cell_open(board, size, hi, col) {
        hi
    } else {
        landing_rec(board, size, col, hi - 1)
    }
}

/// The row where a marker dropped into `col` comes to rest: the lowest
/// empty row of the column.
pub open spec fn landing_row(board: Seq<Sprite>, size: int, col: int) -> int {
    landing_rec(board, size, col, size - 1)
}

/// The board index where a marker dropped into `col` comes to rest.
pub open spec fn landing_cell(board: Seq<Sprite>, size: int, col: int) -> int {
    landing_row(board, size, col) * size + col
}

/// `after` is `before` with `mark` placed at index `i` and no other cell
/// touched.
pub open spec fn placed_at(before: Seq<Sprite>, after: Seq<Sprite>, i: int, mark: Seq<char>) -> bool {
    &&& after.len() == before.len()
    &&& after[i]@ == mark
    &&& forall|j: int| 0 <= j < before.len() && j != i ==> after[j] == before[j]
}

/// In a stacked column, every cell below an occupied one is occupied.
proof fn lemma_stacked_above(board: Seq<Sprite>, size: int, col: int, r0: int, r: int)
    requires
        column_stacked(board, size, col),
        0 <= r0 <= r < size,
        !cell_open(board, size, r0, col),
    ensures
        !cell_open(board, size, r, col),
    decreases r - r0,
{
    if r0 < r {
        lemma_stacked_above(board, size, col, r0 + 1, r);
    }
}

/// What the upward scan returns: a row at or below `hi` that is empty
/// (unless it is row 0), with every row strictly between it and `hi`
/// occupied.
proof fn lemma_landing_rec_props(board: Seq<Sprite>, size: int, col: int, hi: int)
    requires
        0 <= hi,
    ensures
        0 <= landing_rec(board, size, col, hi) <= hi,
        landing_rec(board, size, col, hi) > 0 ==> cell_open(
            board,
            size,
            landing_rec(board, size, col, hi),
            col,
        ),
        forall|r: int|
            landing_rec(board, size, col, hi) < r <= hi ==> !cell_open(board, size, r, col),
    decreases hi,
{
    if hi > 0 && !cell_open(board, size, hi, col) {
        lemma_landing_rec_props(board, size, col, hi - 1);
    }
}

/// In a stacked column whose top cell is empty, the landing row is the
/// lowest empty row: every row at or above it is empty, every row below it
/// is occupied.
pub proof fn lemma_landing_profile(board: Seq<Sprite>, size: int, col: int)
    requires
        1 <= size,
        0 <= col < size,
        column_stacked(board, size, col),
        cell_open(board, size, 0, col),
    ensures
        0 <= landing_row(board, size, col) < size,
        cell_open(board, size, landing_row(board, size, col), col),
        forall|r: int| 0 <= r <= landing_row(board, size, col) ==> cell_open(board, size, r, col),
        forall|r: int|
            landing_row(board, size, col) < r < size ==> !cell_open(board, size, r, col),
{
    let l = landing_row(board, size, col);
    lemma_landing_rec_props(board, size, col, size - 1);
    assert(cell_open(board, size, l, col));
    assert forall|r: int| 0 <= r <= l implies cell_open(board, size, r, col) by {
        if !cell_open(board, size, r, col) {
            lemma_stacked_above(board, size, col, r, l);
        }
    }
}

/// Places `current_player`'s marker for the given validated selection:
/// directly on the selected cell outside gravity modes, and at the landing
/// row of the selected column in Connect-4.
fn place(
    board: &mut Vec<Sprite>,
    size: usize,
    current_mode: Mode,
    current_player: &Sprite,
    other_player: &Sprite,
    selected_cell: usize,
)
    requires
        old(board)@.len() == size * size,
        1 <= size,
        current_player@ != empty_mark(),
        other_player@ != empty_mark(),
        cells_valid(old(board)@, current_player@, other_player@),
        move_allowed(
            old(board)@,
            size as int,
            current_mode,
            current_player@,
            other_player@,
            selected_cell as int,
        ),
        current_mode == Mode::ConnectFour ==> column_stacked(
            old(board)@,
            size as int,
            selected_cell - 1,
        ),
    ensures
        current_mode != Mode::ConnectFour ==> placed_at(
            old(board)@,
            final(board)@,
            selected_cell - 1,
            current_player@,
        ),
        current_mode == Mode::ConnectFour ==> placed_at(
            old(board)@,
            final(board)@,
            landing_cell(old(board)@, size as int, (selected_cell - 1) as int),
            current_player@,
        ),
{
    let _total: usize = board.len();
    match current_mode {
        Mode::ConnectFour => {
            let col = selected_cell - 1;
            proof {
                assert(cell(board@, size as int, 0, col as int) == board@[col as int]@);
                lemma_landing_profile(board@, size as int, col as int);
            }
            let mut row: usize = 0;
            while row + 1 < size
                invariant
                    board@.len() == size * size,
                    size * size <= usize::MAX,
                    1 <= size,
                    col < size,
                    row < size,
                    forall|r: int| 0 <= r <= row ==> cell_open(board@, size as int, r, col as int),
                ensures
                    board@.len() == size * size,
                    row < size,
                    forall|r: int| 0 <= r <= row ==> cell_open(board@, size as int, r, col as int),
                    row + 1 == size || !cell_open(board@, size as int, row as int + 1, col as int),
                decreases size - row,
            {
                proof {
                    lemma_cell_index(size as int, row as int + 1, col as int);
                    assert(cell(board@, size as int, row as int + 1, col as int) == board@[(row + 1)
                        * size + col]@);
                }
                if !board[(row + 1) * size + col].is_empty_mark() {
                    break;
                }
                row = row + 1;
            }
            proof {
                let l = landing_row(board@, size as int, col as int);
                if (row as int) < l {
                    assert(cell_open(board@, size as int, row as int + 1, col as int));
                }
                if (row as int) > l {
                    assert(cell_open(board@, size as int, row as int, col as int));
                }
                assert(row as int == l);
                lemma_cell_index(size as int, row as int, col as int);
            }
            let target = row * size + col;
            board[target] = Sprite(current_player.0.clone());
        },
        _ => {
            board[selected_cell - 1] = Sprite(current_player.0.clone());
        },
    }
}

// ---------------------------------------------------------------------------
// The validator.
// ---------------------------------------------------------------------------
/// Checks a player's selection against the board before anything is placed,
/// for the Tic-Tac-Toe and Connect-4 rule families (the reserved modes
/// follow the Tic-Tac-Toe rules). The reasons are checked in this order:
/// range first, then occupancy, then the gravity column bound.
pub fn ttt_cnct_four_board_move_chck(
    board: &[Sprite],
    size: usize,
    mode: Mode,
    current_player: &Sprite,
    other_player: &Sprite,
    selection: usize,
) -> (r: MoveStatus)
    requires
        board@.len() == size * size,
    ensures
        (r == MoveStatus::Invalid(MoveError::OutOfRange)) <==> (selection == 0 || selection > size
            * size),
        (r == MoveStatus::Invalid(MoveError::CellOccupied)) <==> (selection_in_range(
            size as int,
            selection as int,
        ) && cell_taken(board@, current_player@, other_player@, selection - 1)),
        (r == MoveStatus::Invalid(MoveError::InvalidColumn)) <==> (selection_in_range(
            size as int,
            selection as int,
        ) && !cell_taken(board@, current_player@, other_player@, selection - 1) && mode
            == Mode::ConnectFour && selection > size),
        (r == MoveStatus::Valid) <==> move_allowed(
            board@,
            size as int,
            mode,
            current_player@,
            other_player@,
            selection as int,
        ),
{
    let total = board.len();
    if selection == 0 || selection > total {
        return MoveStatus::Invalid(MoveError::OutOfRange);
    }
    if board[selection - 1] == *current_player || board[selection - 1] == *other_player {
        return MoveStatus::Invalid(MoveError::CellOccupied);
    }
    if selection > size && mode == Mode::ConnectFour {
        return MoveStatus::Invalid(MoveError::InvalidColumn);
    }
    MoveStatus::Valid
}

// ---------------------------------------------------------------------------
// The win evaluator.
// ---------------------------------------------------------------------------
/// Decides whether `player` holds a full line of the board. Every column,
/// every row, the main diagonal and the anti-diagonal are swept in turn;
/// the sweep works for any axis length, not only 3 and 4.
///
/// Ties are not decided here: the caller infers a tie when no line is full
/// and the turn counter has reached the board's capacity.
pub fn ttt_cnct_four_board_check(board: &[Sprite], size: usize, player: &Sprite) -> (r: bool)
    requires
        board@.len() == size * size,
        1 <= size,
    ensures
        r == winning_position(board@, size as int, player@),
{
    let total = board.len();
    assert(size * size <= usize::MAX);
    let mut c: usize = 0;
    while c < size
        invariant
            board@.len() == size * size,
            size * size <= usize::MAX,
            1 <= size,
            c <= size,
            forall|cc: int| 0 <= cc < c ==> !column_filled(board@, size as int, cc, player@),
        decreases size - c,
    {
        let mut r: usize = 0;
        let mut all_mine: bool = true;
        while r < size
            invariant
                board@.len() == size * size,
                size * size <= usize::MAX,
                1 <= size,
                c < size,
                r <= size,
                all_mine <==> (forall|k: int|
                    0 <= k < r ==> cell(board@, size as int, k, c as int) == player@),
            decreases size - r,
        {
            proof {
                lemma_cell_index(size as int, r as int, c as int);
                assert(cell(board@, size as int, r as int, c as int) == board@[r * size + c]@);
            }
            if !(board[r * size + c] == *player) {
                all_mine = false;
            }
            r = r + 1;
        }
        if all_mine {
            assert(column_filled(board@, size as int, c as int, player@));
            return true;
        }
        c = c + 1;
    }
    let mut row: usize = 0;
    while row < size
        invariant
            board@.len() == size * size,
            size * size <= usize::MAX,
            1 <= size,
            row <= size,
            forall|rr: int| 0 <= rr < row ==> !row_filled(board@, size as int, rr, player@),
        decreases size - row,
    {
        let mut col: usize = 0;
        let mut all_mine: bool = true;
        while col < size
            invariant
                board@.len() == size * size,
                size * size <= usize::MAX,
                1 <= size,
                row < size,
                col <= size,
                all_mine <==> (forall|k: int|
                    0 <= k < col ==> cell(board@, size as int, row as int, k) == player@),
            decreases size - col,
        {
            proof {
                lemma_cell_index(size as int, row as int, col as int);
                assert(cell(board@, size as int, row as int, col as int) == board@[row * size
                    + col]@);
            }
            if !(board[row * size + col] == *player) {
                all_mine = false;
            }
            col = col + 1;
        }
        if all_mine {
            assert(row_filled(board@, size as int, row as int, player@));
            return true;
        }
        row = row + 1;
    }
    let mut k: usize = 0;
    let mut diag_mine: bool = true;
    while k < size
        invariant
            board@.len() == size * size,
            size * size <= usize::MAX,
            1 <= size,
            k <= size,
            diag_mine <==> (forall|j: int|
                0 <= j < k ==> diagonal_cell(board@, size as int, j) == player@),
        decreases size - k,
    {
        proof {
            lemma_cell_index(size as int, k as int, k as int);
            assert(diagonal_cell(board@, size as int, k as int) == board@[k * size + k]@);
        }
        if !(board[k * size + k] == *player) {
            diag_mine = false;
        }
        k = k + 1;
    }
    if diag_mine {
        assert(diagonal_filled(board@, size as int, player@));
        return true;
    }
    let mut a: usize = 0;
    let mut anti_mine: bool = true;
    while a < size
        invariant
            board@.len() == size * size,
            size * size <= usize::MAX,
            1 <= size,
            a <= size,
            anti_mine <==> (forall|j: int|
                0 <= j < a ==> anti_diagonal_cell(board@, size as int, j) == player@),
        decreases size - a,
    {
        proof {
            lemma_cell_index(size as int, a as int, (size - 1 - a) as int);
            assert(anti_diagonal_cell(board@, size as int, a as int) == board@[a * size + (size - 1
                - a)]@);
        }
        if !(board[a * size + (size - 1 - a)] == *player) {
            anti_mine = false;
        }
        a = a + 1;
    }
    if anti_mine {
        assert(anti_diagonal_filled(board@, size as int, player@));
        return true;
    }
    false
}

/// Applies a validated move to the board and hands the edited board back:
/// direct placement at `selected_cell - 1` for Tic-Tac-Toe (and the
/// reserved modes), a gravity drop down column `selected_cell - 1` for
/// Connect-4.
///
/// The caller must have run the validator first; in particular a gravity
/// drop expects the selected column's head cell to be free.
pub fn edit_board(
    board: Vec<Sprite>,
    size: usize,
    current_mode: Mode,
    current_player: &Sprite,
    other_player: &Sprite,
    selected_cell: usize,
) -> (r: Vec<Sprite>)
    requires
        board@.len() == size * size,
        1 <= size,
        current_player@ != empty_mark(),
        other_player@ != empty_mark(),
        cells_valid(board@, current_player@, other_player@),
        move_allowed(
            board@,
            size as int,
            current_mode,
            current_player@,
            other_player@,
            selected_cell as int,
        ),
        current_mode == Mode::ConnectFour ==> column_stacked(
            board@,
            size as int,
            selected_cell - 1,
        ),
    ensures
        current_mode != Mode::ConnectFour ==> placed_at(
            board@,
            r@,
            selected_cell - 1,
            current_player@,
        ),
        current_mode == Mode::ConnectFour ==> placed_at(
            board@,
            r@,
            landing_cell(board@, size as int, (selected_cell - 1) as int),
            current_player@,
        ),
{
    let mut edited = board;
    place(&mut edited, size, current_mode, current_player, other_player, selected_cell);
    edited
}

/// Placing a marker on the landing cell of a column keeps every column of
/// the board stacked.
proof fn lemma_drop_preserves_stacked(
    before: Seq<Sprite>,
    after: Seq<Sprite>,
    size: int,
    col0: int,
    mark: Seq<char>,
)
    requires
        before.len() == size * size,
        1 <= size,
        0 <= col0 < size,
        forall|c: int| 0 <= c < size ==> #[trigger] column_stacked(before, size, c),
        cell_open(before, size, 0, col0),
        mark != empty_mark(),
        placed_at(before, after, landing_cell(before, size, col0), mark),
    ensures
        forall|c: int| 0 <= c < size ==> #[trigger] column_stacked(after, size, c),
{
    lemma_landing_profile(before, size, col0);
    let l = landing_row(before, size, col0);
    lemma_cell_index(size, l, col0);
    assert forall|c: int| 0 <= c < size implies #[trigger] column_stacked(after, size, c) by {
        assert(column_stacked(before, size, c));
        assert forall|r: int|
            0 <= r < size - 1 && !#[trigger] cell_open(after, size, r, c) implies !cell_open(
            after,
            size,
            r + 1,
            c,
        ) by {
            lemma_cell_index(size, r, c);
            lemma_cell_index(size, r + 1, c);
            if c == col0 {
                if r + 1 == l {
                    assert(cell(after, size, r + 1, c) == mark);
                } else {
                    if (r + 1) * size + c == l * size + col0 {
                        lemma_cell_index_injective(size, r + 1, c, l, col0);
                    }
                    assert(after[(r + 1) * size + c] == before[(r + 1) * size + c]);
                    if r == l {
                        assert(!cell_open(before, size, r + 1, c));
                    } else {
                        if r * size + c == l * size + col0 {
                            lemma_cell_index_injective(size, r, c, l, col0);
                        }
                        assert(after[r * size + c] == before[r * size + c]);
                        assert(!cell_open(before, size, r, c));
                        assert(r > l);
                        assert(!cell_open(before, size, r + 1, c));
                    }
                }
            } else {
                if r * size + c == l * size + col0 {
                    lemma_cell_index_injective(size, r, c, l, col0);
                }
                if (r + 1) * size + c == l * size + col0 {
                    lemma_cell_index_injective(size, r + 1, c, l, col0);
                }
                assert(after[r * size + c] == before[r * size + c]);
                assert(after[(r + 1) * size + c] == before[(r + 1) * size + c]);
                assert(!cell_open(before, size, r, c));
            }
        }
    }
}

// ---------------------------------------------------------------------------
// The turn controller.
// ---------------------------------------------------------------------------
/// The marker whose turn it is: players alternate, and the holder of
/// `marker_a` moves on even turn counts, starting with turn zero.
pub open spec fn mover_mark(game: Game, a: Seq<char>, b: Seq<char>) -> Seq<char> {
    if game.num_of_turns % 2 == 0 {
        a
    } else {
        b
    }
}

/// The marker of the player who waits this turn.
pub open spec fn waiting_mark(game: Game, a: Seq<char>, b: Seq<char>) -> Seq<char> {
    if game.num_of_turns % 2 == 0 {
        b
    } else {
        a
    }
}

/// The board index a valid move lands on: the selected cell itself outside
/// gravity modes, the landing cell of the selected column in Connect-4.
pub open spec fn move_target(board: Seq<Sprite>, size: int, mode: Mode, selection: int) -> int {
    if mode == Mode::ConnectFour {
        landing_cell(board, size, selection - 1)
    } else {
        selection - 1
    }
}

/// The board-shape invariant the controller keeps between moves, for the
/// two markers in play: every cell is unclaimed or one of the two markers,
/// and under Connect-4 every column is stacked.
pub open spec fn board_playable(game: Game, a: Seq<char>, b: Seq<char>) -> bool {
    &&& cells_valid(game.board@, a, b)
    &&& (game.current_mode == Mode::ConnectFour ==> forall|c: int|
        0 <= c < game.size ==> #[trigger] column_stacked(game.board@, game.size as int, c))
}

/// Reads the outcome of the game after the given player's move: `Won` when
/// that player holds a full line, otherwise `Tie` exactly when the turn
/// counter has reached the board's capacity, otherwise `NotOver`.
///
/// A win cannot mathematically arise before the mover's `size`-th move, so
/// sweeping the board unconditionally returns the same outcome as any
/// turn-count gate would; no gate is applied here.
pub fn change_status(game: &Game, player: &Sprite) -> (r: State)
    requires
        game.board@.len() == game.size * game.size,
        1 <= game.size,
    ensures
        (r == State::Won) <==> winning_position(game.board@, game.size as int, player@),
        (r == State::Tie) <==> (!winning_position(game.board@, game.size as int, player@)
            && game.num_of_turns == game.size * game.size),
        (r == State::NotOver) <==> (!winning_position(game.board@, game.size as int, player@)
            && game.num_of_turns != game.size * game.size),
{
    let capacity = game.board.len();
    if ttt_cnct_four_board_check(game.board.as_slice(), game.size, player) {
        State::Won
    } else if game.num_of_turns == capacity {
        State::Tie
    } else {
        State::NotOver
    }
}

/// Plays one move: validate, place, count the turn, and read the outcome.
///
/// The two players alternate by turn parity: the holder of `marker_a`
/// moves on even turn counts. A rejected selection leaves the game exactly
/// as it was, ready for another attempt, and the returned status says why
/// the move was turned away. The game must be open (`NotOver`): callers
/// that hold a finished game reset it first.
pub fn play_move(
    game: &mut Game,
    marker_a: &Sprite,
    marker_b: &Sprite,
    selection: usize,
) -> (r: MoveStatus)
    requires
        old(game).wf(),
        old(game).current_state == State::NotOver,
        marker_a@ != empty_mark(),
        marker_b@ != empty_mark(),
        board_playable(*old(game), marker_a@, marker_b@),
    ensures
        final(game).name@ == old(game).name@,
        final(game).current_mode == old(game).current_mode,
        final(game).size == old(game).size,
        final(game).wf(),
        board_playable(*final(game), marker_a@, marker_b@),
        (r == MoveStatus::Invalid(MoveError::OutOfRange)) <==> (selection == 0 || selection > old(
            game,
        ).size * old(game).size),
        (r == MoveStatus::Invalid(MoveError::CellOccupied)) <==> (selection_in_range(
            old(game).size as int,
            selection as int,
        ) && cell_taken(
            old(game).board@,
            mover_mark(*old(game), marker_a@, marker_b@),
            waiting_mark(*old(game), marker_a@, marker_b@),
            selection - 1,
        )),
        (r == MoveStatus::Invalid(MoveError::InvalidColumn)) <==> (selection_in_range(
            old(game).size as int,
            selection as int,
        ) && !cell_taken(
            old(game).board@,
            mover_mark(*old(game), marker_a@, marker_b@),
            waiting_mark(*old(game), marker_a@, marker_b@),
            selection - 1,
        ) && old(game).current_mode == Mode::ConnectFour && selection > old(game).size),
        (r == MoveStatus::Valid) <==> move_allowed(
            old(game).board@,
            old(game).size as int,
            old(game).current_mode,
            mover_mark(*old(game), marker_a@, marker_b@),
            waiting_mark(*old(game), marker_a@, marker_b@),
            selection as int,
        ),
        r != MoveStatus::Valid ==> *final(game) == *old(game),
        r == MoveStatus::Valid ==> placed_at(
            old(game).board@,
            final(game).board@,
            move_target(
                old(game).board@,
                old(game).size as int,
                old(game).current_mode,
                selection as int,
            ),
            mover_mark(*old(game), marker_a@, marker_b@),
        ),
        r == MoveStatus::Valid ==> final(game).num_of_turns == old(game).num_of_turns + 1,
        r == MoveStatus::Valid ==> mover_mark(*final(game), marker_a@, marker_b@) == waiting_mark(
            *old(game),
            marker_a@,
            marker_b@,
        ),
        r == MoveStatus::Valid ==> ((final(game).current_state == State::Won) <==> winning_position(
            final(game).board@,
            old(game).size as int,
            mover_mark(*old(game), marker_a@, marker_b@),
        )),
        r == MoveStatus::Valid ==> ((final(game).current_state == State::Tie)
            <==> (!winning_position(
            final(game).board@,
            old(game).size as int,
            mover_mark(*old(game), marker_a@, marker_b@),
        ) && final(game).num_of_turns == old(game).size * old(game).size)),
        r == MoveStatus::Valid ==> ((final(game).current_state == State::NotOver)
            <==> (!winning_position(
            final(game).board@,
            old(game).size as int,
            mover_mark(*old(game), marker_a@, marker_b@),
        ) && final(game).num_of_turns != old(game).size * old(game).size)),
{
    let a_moves = game.num_of_turns % 2 == 0;
    let status = if a_moves {
        ttt_cnct_four_board_move_chck(
            game.board.as_slice(),
            game.size,
            game.current_mode,
            marker_a,
            marker_b,
            selection,
        )
    } else {
        ttt_cnct_four_board_move_chck(
            game.board.as_slice(),
            game.size,
            game.current_mode,
            marker_b,
            marker_a,
            selection,
        )
    };
    match status {
        MoveStatus::Valid => {
            proof {
                if game.current_mode == Mode::ConnectFour {
                    assert(column_stacked(game.board@, game.size as int, selection - 1));
                }
            }
            if a_moves {
                place(&mut game.board, game.size, game.current_mode, marker_a, marker_b, selection);
            } else {
                place(&mut game.board, game.size, game.current_mode, marker_b, marker_a, selection);
            }
            let _capacity: usize = game.board.len();
            game.num_of_turns = game.num_of_turns + 1;
            let outcome = if a_moves {
                change_status(game, marker_a)
            } else {
                change_status(game, marker_b)
            };
            game.current_state = outcome;
            proof {
                let before = old(game).board@;
                let after = game.board@;
                let size = old(game).size as int;
                let mover = mover_mark(*old(game), marker_a@, marker_b@);
                assert forall|i: int|
                    0 <= i < after.len() implies (after[i]@ == empty_mark() || after[i]@
                    == marker_a@ || after[i]@ == marker_b@) by {
                    let t = move_target(before, size, old(game).current_mode, selection as int);
                    if i != t {
                        assert(after[i] == before[i]);
                    }
                }
                if old(game).current_mode == Mode::ConnectFour {
                    let col0 = selection as int - 1;
                    assert(cell(before, size, 0, col0) == before[col0]@);
                    lemma_drop_preserves_stacked(before, after, size, col0, mover);
                }
            }
            MoveStatus::Valid
        },
        MoveStatus::Invalid(reason) => MoveStatus::Invalid(reason),
    }
}

/// Law of gravity drops: a marker dropped into a fully empty column lands
/// on the bottom row, and a second marker dropped into the same column
/// lands immediately above the first.
pub proof fn lemma_gravity_drop_rows(
    before: Seq<Sprite>,
    after: Seq<Sprite>,
    size: int,
    col: int,
    mark: Seq<char>,
)
    requires
        before.len() == size * size,
        3 <= size,
        0 <= col < size,
        forall|r: int| 0 <= r < size ==> #[trigger] cell_open(before, size, r, col),
        mark != empty_mark(),
        placed_at(before, after, landing_cell(before, size, col), mark),
    ensures
        landing_row(before, size, col) == size - 1,
        landing_row(after, size, col) == size - 2,
{
    assert(cell_open(before, size, size - 1, col));
    assert(landing_rec(before, size, col, size - 1) == size - 1);
    let l = size - 1;
    lemma_cell_index(size, l, col);
    lemma_cell_index(size, l - 1, col);
    assert(cell(after, size, l, col) == after[l * size + col]@);
    assert(cell(after, size, l, col) == mark);
    if (l - 1) * size + col == l * size + col {
        lemma_cell_index_injective(size, l - 1, col, l, col);
    }
    assert(after[(l - 1) * size + col] == before[(l - 1) * size + col]);
    assert(cell_open(before, size, l - 1, col));
    assert(cell(before, size, l - 1, col) == before[(l - 1) * size + col]@);
    assert(cell_open(after, size, l - 1, col));
    assert(landing_rec(after, size, col, size - 2) == size - 2);
    assert(landing_rec(after, size, col, size - 1) == size - 2);
}

} // verus!
