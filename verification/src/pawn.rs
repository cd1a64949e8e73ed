//! The pawn: one step forward, two from its starting row, and captures on
//! the two forward diagonals.

use vstd::prelude::*;
use crate::board::{Board, empty_square, get_cell, occupant_at};
use crate::geometry::{
    Occupant, SquareOutOfRange, all_in_bounds, check_square, in_bounds, is_in_bounds,
    lemma_squares_of_injective, occupant_class, squares_of,
};

verus! {

/// The change of the row index when a pawn advances one step: White moves
/// towards row 0, Black towards row 7.
pub open spec fn pawn_forward(is_white: bool) -> int {
    if is_white {
        -1
    } else {
        1
    }
}

/// The row on which the pawns of a colour start.
pub open spec fn pawn_start_row(is_white: bool) -> int {
    if is_white {
        6
    } else {
        1
    }
}

/// The square one step ahead of a pawn on `(row, col)`.
pub open spec fn single_push_square(row: int, col: int, is_white: bool) -> (int, int) {
    (row + pawn_forward(is_white), col)
}

/// The square two steps ahead of a pawn on `(row, col)`.
pub open spec fn double_push_square(row: int, col: int, is_white: bool) -> (int, int) {
    (row + 2 * pawn_forward(is_white), col)
}

/// The square diagonally ahead of a pawn on `(row, col)`, towards column 0
/// where `side` is -1 and away from it where `side` is 1.
pub open spec fn capture_square(row: int, col: int, is_white: bool, side: int) -> (int, int) {
    (row + pawn_forward(is_white), col + side)
}

/// Whether the pawn may advance one step: the square ahead lies on the board
/// and is empty.
pub open spec fn single_push_legal(board: Board, row: int, col: int, is_white: bool) -> bool {
    empty_square(board, single_push_square(row, col, is_white))
}

/// Whether the pawn may advance two steps: it may advance one, it stands on
/// its starting row, and the square two steps ahead lies on the board and is
/// empty.
pub open spec fn double_push_legal(board: Board, row: int, col: int, is_white: bool) -> bool {
    &&& single_push_legal(board, row, col, is_white)
    &&& row == pawn_start_row(is_white)
    &&& empty_square(board, double_push_square(row, col, is_white))
}

/// Whether the pawn may capture towards `side`: the square diagonally ahead
/// lies on the board and holds an opponent's piece.
pub open spec fn capture_legal(
    board: Board,
    row: int,
    col: int,
    is_white: bool,
    side: int,
) -> bool {
    let target = capture_square(row, col, is_white, side);
    &&& in_bounds(target.0, target.1)
    &&& occupant_at(board, target.0, target.1, is_white) == Occupant::Opponent
}

/// The one-element sequence of `square` where `offered` holds, the empty
/// sequence where it does not.
pub open spec fn offer(offered: bool, square: (int, int)) -> Seq<(int, int)> {
    if offered {
        seq![square]
    } else {
        Seq::empty()
    }
}

/// The pushes of a pawn: the single push, then the double push, each where
/// it is legal.
pub open spec fn pawn_pushes(board: Board, row: int, col: int, is_white: bool) -> Seq<(int, int)> {
    offer(single_push_legal(board, row, col, is_white), single_push_square(row, col, is_white))
        + offer(
        double_push_legal(board, row, col, is_white),
        double_push_square(row, col, is_white),
    )
}

/// The capture of a pawn towards `side`, where it is legal.
pub open spec fn pawn_capture(
    board: Board,
    row: int,
    col: int,
    is_white: bool,
    side: int,
) -> Seq<(int, int)> {
    offer(
        capture_legal(board, row, col, is_white, side),
        capture_square(row, col, is_white, side),
    )
}

/// The destinations of a pawn of colour `is_white` on `(row, col)`: the
/// single push, the double push, the capture towards column 0 and the
/// capture away from it, each where it is legal, in that order.
pub open spec fn pawn_moves(board: Board, row: int, col: int, is_white: bool) -> Seq<(int, int)> {
    pawn_pushes(board, row, col, is_white) + pawn_capture(board, row, col, is_white, -1)
        + pawn_capture(board, row, col, is_white, 1)
}

/// A square is a destination of the pawn exactly if it is the target of a
/// legal push or of a legal capture.
pub proof fn lemma_pawn_moves_contains(
    board: Board,
    row: int,
    col: int,
    is_white: bool,
    square: (int, int),
)
    ensures
        pawn_moves(board, row, col, is_white).contains(square) <==> {
            ||| single_push_legal(board, row, col, is_white)
                && square == single_push_square(row, col, is_white)
            ||| double_push_legal(board, row, col, is_white)
                && square == double_push_square(row, col, is_white)
            ||| capture_legal(board, row, col, is_white, -1)
                && square == capture_square(row, col, is_white, -1)
            ||| capture_legal(board, row, col, is_white, 1)
                && square == capture_square(row, col, is_white, 1)
        },
{
    let single = offer(
        single_push_legal(board, row, col, is_white),
        single_push_square(row, col, is_white),
    );
    let double = offer(
        double_push_legal(board, row, col, is_white),
        double_push_square(row, col, is_white),
    );
    let left = pawn_capture(board, row, col, is_white, -1);
    let right = pawn_capture(board, row, col, is_white, 1);
    let moves = pawn_moves(board, row, col, is_white);
    if single.len() > 0 {
        assert(moves[0] == single[0]);
    }
    if double.len() > 0 {
        assert(moves[single.len() as int] == double[0]);
    }
    if left.len() > 0 {
        assert(moves[(single.len() + double.len()) as int] == left[0]);
    }
    if right.len() > 0 {
        assert(moves[(single.len() + double.len() + left.len()) as int] == right[0]);
    }
}

/// Every destination of a pawn lies on the board and holds no piece of the
/// pawn's colour.
pub proof fn lemma_pawn_moves_in_bounds(board: Board, row: int, col: int, is_white: bool)
    ensures
        all_in_bounds(pawn_moves(board, row, col, is_white)),
        forall|i: int|
            #![trigger pawn_moves(board, row, col, is_white)[i]]
            0 <= i < pawn_moves(board, row, col, is_white).len() ==> {
                let square = pawn_moves(board, row, col, is_white)[i];
                occupant_at(board, square.0, square.1, is_white) != Occupant::Own
            },
{
    let moves = pawn_moves(board, row, col, is_white);
    assert forall|i: int| 0 <= i < moves.len() implies {
        let square = #[trigger] moves[i];
        &&& in_bounds(square.0, square.1)
        &&& occupant_at(board, square.0, square.1, is_white) != Occupant::Own
    } by {
        lemma_pawn_moves_contains(board, row, col, is_white, moves[i]);
    }
}

/// The single push is offered exactly if it is legal.
pub proof fn lemma_single_push_offered(board: Board, row: int, col: int, is_white: bool)
    ensures
        pawn_moves(board, row, col, is_white).contains(single_push_square(row, col, is_white))
            <==> single_push_legal(board, row, col, is_white),
{
    lemma_pawn_moves_contains(board, row, col, is_white, single_push_square(row, col, is_white));
}

/// The double push is offered exactly if the single push is legal, the pawn
/// stands on its starting row and the square two steps ahead lies on the
/// board and is empty.
pub proof fn lemma_double_push_offered(board: Board, row: int, col: int, is_white: bool)
    ensures
        pawn_moves(board, row, col, is_white).contains(double_push_square(row, col, is_white))
            <==> double_push_legal(board, row, col, is_white),
{
    lemma_pawn_moves_contains(board, row, col, is_white, double_push_square(row, col, is_white));
}

/// Unless a piece stands two steps ahead of a pawn that may advance one step
/// from its starting row, the double push is offered exactly if the single
/// push is legal and the pawn stands on its starting row.
pub proof fn lemma_double_push_from_start_row(board: Board, row: int, col: int, is_white: bool)
    requires
        single_push_legal(board, row, col, is_white) && row == pawn_start_row(is_white)
            ==> empty_square(board, double_push_square(row, col, is_white)),
    ensures
        pawn_moves(board, row, col, is_white).contains(double_push_square(row, col, is_white))
            <==> single_push_legal(board, row, col, is_white) && row == pawn_start_row(is_white),
{
    lemma_double_push_offered(board, row, col, is_white);
}

/// A pawn with a piece on the square one step ahead is offered no push,
/// neither single nor double; nor is a pawn with no square ahead.
pub proof fn lemma_no_push_when_blocked(board: Board, row: int, col: int, is_white: bool)
    requires
        !empty_square(board, single_push_square(row, col, is_white)),
    ensures
        !pawn_moves(board, row, col, is_white).contains(single_push_square(row, col, is_white)),
        !pawn_moves(board, row, col, is_white).contains(double_push_square(row, col, is_white)),
{
    lemma_single_push_offered(board, row, col, is_white);
    lemma_double_push_offered(board, row, col, is_white);
}

/// A diagonal capture is offered exactly if its target lies on the board and
/// holds an opponent's piece: never onto an empty square, never onto a piece
/// of the pawn's colour.
pub proof fn lemma_capture_offered(board: Board, row: int, col: int, is_white: bool, side: int)
    requires
        side == -1 || side == 1,
    ensures
        ({
            let target = capture_square(row, col, is_white, side);
            pawn_moves(board, row, col, is_white).contains(target) <==> {
                &&& in_bounds(target.0, target.1)
                &&& occupant_at(board, target.0, target.1, is_white) == Occupant::Opponent
            }
        }),
{
    lemma_pawn_moves_contains(board, row, col, is_white, capture_square(row, col, is_white, side));
}

/// Two move lists that both hold the pawn's destinations for one board, one
/// square and one colour are the same list: so are the results of two calls
/// of the pawn's generator.
pub proof fn lemma_pawn_moves_deterministic(
    board: Board,
    row: int,
    col: int,
    is_white: bool,
    first: Seq<(usize, usize)>,
    second: Seq<(usize, usize)>,
)
    requires
        squares_of(first) == pawn_moves(board, row, col, is_white),
        squares_of(second) == pawn_moves(board, row, col, is_white),
    ensures
        first == second,
{
    lemma_squares_of_injective(first, second);
}

/// Whether `(row, col)` lies on the board and has an occupant of class
/// `class` for a mover of colour `is_white`.
fn square_holds(board: &Board, row: isize, col: isize, is_white: bool, class: Occupant) -> (b: bool)
    ensures
        b == {
            &&& in_bounds(row as int, col as int)
            &&& occupant_at(*board, row as int, col as int, is_white) == class
        },
{
    is_in_bounds(row, col) && occupant_class(
        get_cell(board, row as usize, col as usize),
        is_white,
    ) == class
}

/// The destinations of a pawn of colour `is_white` on `(row, col)`: one step
/// forward onto an empty square; after it, two steps forward from the
/// starting row onto an empty square; then the captures of an opponent's
/// piece diagonally ahead, first towards column 0, then away from it.
pub fn generate_pawn_moves(
    board: &Board,
    row: usize,
    col: usize,
    is_white: bool,
) -> (moves: Vec<(usize, usize)>)
    requires
        in_bounds(row as int, col as int),
    ensures
        squares_of(moves@) == pawn_moves(*board, row as int, col as int, is_white),
        all_in_bounds(squares_of(moves@)),
{
    let mut moves: Vec<(usize, usize)> = Vec::new();
    let forward: isize = if is_white {
        -1
    } else {
        1
    };
    let start_row: usize = if is_white {
        6
    } else {
        1
    };
    let here: isize = col as isize;
    let ahead: isize = row as isize + forward;

    if square_holds(board, ahead, here, is_white, Occupant::Empty) {
        moves.push((ahead as usize, col));
        if row == start_row {
            let beyond: isize = ahead + forward;
            if square_holds(board, beyond, here, is_white, Occupant::Empty) {
                moves.push((beyond as usize, col));
            }
        }
    }

    let left: isize = here - 1;
    if square_holds(board, ahead, left, is_white, Occupant::Opponent) {
        moves.push((ahead as usize, left as usize));
    }

    let right: isize = here + 1;
    if square_holds(board, ahead, right, is_white, Occupant::Opponent) {
        moves.push((ahead as usize, right as usize));
    }
    moves
}

/// The pawn's destinations as `generate_pawn_moves` gives them, or the
/// error `SquareOutOfRange` where `(row, col)` does not lie on the board.
pub fn checked_pawn_moves(
    board: &Board,
    row: usize,
    col: usize,
    is_white: bool,
) -> (result: Result<Vec<(usize, usize)>, SquareOutOfRange>)
    ensures
        result.is_ok() <==> in_bounds(row as int, col as int),
        result matches Ok(moves) ==> {
            &&& squares_of(moves@) == pawn_moves(*board, row as int, col as int, is_white)
            &&& all_in_bounds(squares_of(moves@))
        },
        result matches Err(error) ==> error == (SquareOutOfRange { row, col }),
{
    match check_square(row, col) {
        Ok(_) => Ok(generate_pawn_moves(board, row, col, is_white)),
        Err(error) => Err(error),
    }
}

} // verus!
