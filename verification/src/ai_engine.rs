use vstd::prelude::*;

use rand::seq::IteratorRandom;

use crate::game::Mode;
use crate::player::{empty_mark, Sprite};

verus! {

/// Relies on rand's `IteratorRandom::choose` over a fresh `thread_rng`:
/// on a nonempty slice iterator it returns `Some` of one of the elements,
/// so some element of the list comes back. Which one is up to the
/// generator, so only membership is stated.
#[verifier::external_body]
fn pick_one(moves: &Vec<usize>) -> (r: usize)
    requires
        moves@.len() > 0,
    ensures
        moves@.contains(r),
{
    let mut rng = rand::thread_rng();
    *moves.iter().choose(&mut rng).unwrap_or(&moves[0])
}

/// One scan step of the valid-move listing: after looking at cell `index`,
/// the list holds exactly the 1-based positions of the empty cells seen so
/// far.
proof fn lemma_valid_moves_step(prev: Seq<usize>, curr: Seq<usize>, board: Seq<Sprite>, index: usize)
    requires
        index < usize::MAX,
        forall|m: usize|
            prev.contains(m) <==> (1 <= m <= index && board[m as int - 1]@ == empty_mark()),
        board[index as int]@ == empty_mark() ==> curr == prev.push((index + 1) as usize),
        board[index as int]@ != empty_mark() ==> curr == prev,
    ensures
        forall|m: usize|
            curr.contains(m) <==> (1 <= m <= index + 1 && board[m as int - 1]@ == empty_mark()),
{
    assert forall|m: usize|
        curr.contains(m) <==> (1 <= m <= index + 1 && board[m as int - 1]@ == empty_mark()) by {
        if board[index as int]@ == empty_mark() {
            if curr.contains(m) {
                let j = choose|j: int| 0 <= j < curr.len() && curr[j] == m;
                if j < prev.len() {
                    assert(prev[j] == m);
                    assert(prev.contains(m));
                } else {
                    assert(m == index + 1);
                }
            }
            if 1 <= m <= index + 1 && board[m as int - 1]@ == empty_mark() {
                if m <= index {
                    assert(prev.contains(m));
                    let j = choose|j: int| 0 <= j < prev.len() && prev[j] == m;
                    assert(curr[j] == m);
                    assert(curr.contains(m));
                } else {
                    assert(curr[prev.len() as int] == m);
                    assert(curr.contains(m));
                }
            }
        } else {
            if curr.contains(m) {
                assert(prev.contains(m));
            }
            if 1 <= m <= index + 1 && board[m as int - 1]@ == empty_mark() {
                if m <= index {
                    assert(prev.contains(m));
                    let j = choose|j: int| 0 <= j < prev.len() && prev[j] == m;
                    assert(curr[j] == m);
                    assert(curr.contains(m));
                }
            }
        }
    }
}

/// Lists every selection the validator would accept, in increasing order:
/// all unclaimed cells for Tic-Tac-Toe, the columns with a free head cell
/// for Connect-4, and nothing for the reserved modes.
pub fn get_valid_moves(board: &[Sprite], size: usize, mode: Mode) -> (r: Vec<usize>)
    requires
        board@.len() == size * size,
    ensures
        forall|j: int, k: int| 0 <= j < k < r@.len() ==> r@[j] < r@[k],
        mode == Mode::TicTacToe ==> (forall|m: usize|
            r@.contains(m) <==> (1 <= m <= size * size && board@[m as int - 1]@ == empty_mark())),
        mode == Mode::ConnectFour ==> (forall|m: usize|
            r@.contains(m) <==> (1 <= m <= size && board@[m as int - 1]@ == empty_mark())),
        (mode == Mode::Chess || mode == Mode::Checkers) ==> r@.len() == 0,
{
    let total = board.len();
    let mut valid_moves: Vec<usize> = Vec::new();
    match mode {
        Mode::TicTacToe => {
            let mut index: usize = 0;
            while index < total
                invariant
                    board@.len() == total,
                    index <= total,
                    forall|j: int, k: int|
                        0 <= j < k < valid_moves@.len() ==> valid_moves@[j] < valid_moves@[k],
                    forall|j: int|
                        0 <= j < valid_moves@.len() ==> #[trigger] valid_moves@[j] <= index,
                    forall|m: usize|
                        valid_moves@.contains(m) <==> (1 <= m <= index && board@[m as int - 1]@
                            == empty_mark()),
                decreases total - index,
            {
                let ghost prev = valid_moves@;
                if board[index].is_empty_mark() {
                    valid_moves.push(index + 1);
                }
                proof {
                    lemma_valid_moves_step(prev, valid_moves@, board@, index);
                }
                index = index + 1;
            }
        },
        Mode::ConnectFour => {
            let mut index: usize = 0;
            while index < size
                invariant
                    board@.len() == size * size,
                    size * size <= usize::MAX,
                    index <= size,
                    forall|j: int, k: int|
                        0 <= j < k < valid_moves@.len() ==> valid_moves@[j] < valid_moves@[k],
                    forall|j: int|
                        0 <= j < valid_moves@.len() ==> #[trigger] valid_moves@[j] <= index,
                    forall|m: usize|
                        valid_moves@.contains(m) <==> (1 <= m <= index && board@[m as int - 1]@
                            == empty_mark()),
                decreases size - index,
            {
                proof {
                    crate::game_engine::lemma_square_bounds(size as int);
                }
                let ghost prev = valid_moves@;
                if board[index].is_empty_mark() {
                    valid_moves.push(index + 1);
                }
                proof {
                    lemma_valid_moves_step(prev, valid_moves@, board@, index);
                }
                index = index + 1;
            }
        },
        Mode::Chess => {},
        Mode::Checkers => {},
    }
    valid_moves
}

/// Picks a random move for the trivial computer player: one of the
/// selections the validator would accept. The board must still offer at
/// least one, and the mode must be one of the two played ones; otherwise
/// there is nothing to pick.
pub fn simple_think(board: &[Sprite], size: usize, mode: Mode) -> (r: usize)
    requires
        board@.len() == size * size,
        mode == Mode::TicTacToe || mode == Mode::ConnectFour,
        mode == Mode::TicTacToe ==> exists|i: int|
            0 <= i < board@.len() && board@[i]@ == empty_mark(),
        mode == Mode::ConnectFour ==> exists|i: int|
            0 <= i < size && board@[i]@ == empty_mark(),
    ensures
        1 <= r <= size * size,
        board@[r as int - 1]@ == empty_mark(),
        mode == Mode::ConnectFour ==> r <= size,
{
    let _total: usize = board.len();
    let valid_moves = get_valid_moves(board, size, mode);
    proof {
        assert(_total == size * size);
        if mode == Mode::TicTacToe {
            let i = choose|i: int| 0 <= i < board@.len() && board@[i]@ == empty_mark();
            assert(valid_moves@.contains((i + 1) as usize));
        } else {
            let i = choose|i: int| 0 <= i < size && board@[i]@ == empty_mark();
            crate::game_engine::lemma_square_bounds(size as int);
            assert(valid_moves@.contains((i + 1) as usize));
        }
    }
    let pick = pick_one(&valid_moves);
    proof {
        assert(valid_moves@.contains(pick));
        if mode == Mode::ConnectFour {
            crate::game_engine::lemma_square_bounds(size as int);
        }
    }
    pick
}

} // verus!
