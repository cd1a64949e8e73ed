//! Sliding pieces: the walk along a direction until the board's edge or a
//! piece stops it, and the rook and bishop generators built on it.

use vstd::prelude::*;
use crate::board::{Board, get_cell, occupant_at};
use crate::geometry::{
    Direction, Occupant, SquareOutOfRange, all_in_bounds, check_square, in_bounds, is_in_bounds,
    occupant_class, squares_of,
};

verus! {

/// How many squares of the board lie in `direction` from `(row, col)`, that
/// square included, as far as the row index tells (the column index for a
/// horizontal direction). It bounds the length of a walk.
pub open spec fn squares_ahead(row: int, col: int, direction: Direction) -> int {
    match direction {
        Direction::Up | Direction::UpLeft | Direction::UpRight => row + 1,
        Direction::Down | Direction::DownLeft | Direction::DownRight => 8 - row,
        Direction::Left => col + 1,
        Direction::Right => 8 - col,
    }
}

/// The squares that a walk records when `(row, col)` is the next square it
/// looks at: an empty square is recorded and the walk goes on, an opponent's
/// square is recorded and ends the walk, an own square or the edge of the
/// board ends it with nothing recorded.
pub open spec fn walk(
    board: Board,
    row: int,
    col: int,
    direction: Direction,
    is_white: bool,
) -> Seq<(int, int)>
    decreases squares_ahead(row, col, direction),
{
    if !in_bounds(row, col) {
        Seq::empty()
    } else {
        let next_row = row + direction.row_step();
        let next_col = col + direction.col_step();
        match occupant_at(board, row, col, is_white) {
            Occupant::Empty => {
                seq![(row, col)] + walk(board, next_row, next_col, direction, is_white)
            },
            Occupant::Opponent => seq![(row, col)],
            Occupant::Own => Seq::empty(),
        }
    }
}

/// The destinations of a sliding piece that leaves `(row, col)` in
/// `direction`, nearest first.
pub open spec fn ray(
    board: Board,
    row: int,
    col: int,
    direction: Direction,
    is_white: bool,
) -> Seq<(int, int)> {
    walk(board, row + direction.row_step(), col + direction.col_step(), direction, is_white)
}

/// The destinations of a sliding piece on `(row, col)` that may move in each
/// of `directions`: the rays in the order of the directions.
pub open spec fn sliding_moves(
    board: Board,
    row: int,
    col: int,
    directions: Seq<Direction>,
    is_white: bool,
) -> Seq<(int, int)>
    decreases directions.len(),
{
    if directions.len() == 0 {
        Seq::empty()
    } else {
        sliding_moves(board, row, col, directions.drop_last(), is_white)
            + ray(board, row, col, directions.last(), is_white)
    }
}

/// The directions of a rook: up, down, left, right.
pub open spec fn rook_directions() -> Seq<Direction> {
    seq![Direction::Up, Direction::Down, Direction::Left, Direction::Right]
}

/// The directions of a bishop: the four diagonals.
pub open spec fn bishop_directions() -> Seq<Direction> {
    seq![Direction::UpLeft, Direction::UpRight, Direction::DownLeft, Direction::DownRight]
}

/// The destinations of a rook of colour `is_white` on `(row, col)`.
pub open spec fn rook_moves(board: Board, row: int, col: int, is_white: bool) -> Seq<(int, int)> {
    sliding_moves(board, row, col, rook_directions(), is_white)
}

/// The destinations of a bishop of colour `is_white` on `(row, col)`.
pub open spec fn bishop_moves(board: Board, row: int, col: int, is_white: bool) -> Seq<(int, int)> {
    sliding_moves(board, row, col, bishop_directions(), is_white)
}

/// Every square that a walk records lies on the board.
pub proof fn lemma_walk_in_bounds(
    board: Board,
    row: int,
    col: int,
    direction: Direction,
    is_white: bool,
)
    ensures
        all_in_bounds(walk(board, row, col, direction, is_white)),
    decreases squares_ahead(row, col, direction),
{
    if in_bounds(row, col) && occupant_at(board, row, col, is_white) == Occupant::Empty {
        let next_row = row + direction.row_step();
        let next_col = col + direction.col_step();
        lemma_walk_in_bounds(board, next_row, next_col, direction, is_white);
    }
}

/// Every destination of a sliding piece lies on the board.
pub proof fn lemma_sliding_moves_in_bounds(
    board: Board,
    row: int,
    col: int,
    directions: Seq<Direction>,
    is_white: bool,
)
    ensures
        all_in_bounds(sliding_moves(board, row, col, directions, is_white)),
    decreases directions.len(),
{
    if directions.len() > 0 {
        let last = directions.last();
        lemma_sliding_moves_in_bounds(board, row, col, directions.drop_last(), is_white);
        lemma_walk_in_bounds(
            board,
            row + last.row_step(),
            col + last.col_step(),
            last,
            is_white,
        );
    }
}

/// Appends to `moves` the destinations of a sliding piece of colour
/// `is_white` that leaves `(row, col)` in `direction`.
pub fn extend_along(
    board: &Board,
    row: usize,
    col: usize,
    direction: Direction,
    is_white: bool,
    moves: &mut Vec<(usize, usize)>,
)
    requires
        in_bounds(row as int, col as int),
    ensures
        squares_of(final(moves)@) == squares_of(old(moves)@)
            + ray(*board, row as int, col as int, direction, is_white),
{
    let dr: isize = direction.row_delta();
    let dc: isize = direction.col_delta();
    let mut next_row: isize = row as isize + dr;
    let mut next_col: isize = col as isize + dc;
    let ghost whole = squares_of(moves@)
        + ray(*board, row as int, col as int, direction, is_white);

    while is_in_bounds(next_row, next_col)
        invariant_except_break
            squares_of(moves@)
                + walk(*board, next_row as int, next_col as int, direction, is_white) == whole,
        invariant
            dr == direction.row_step(),
            dc == direction.col_step(),
            -1 <= next_row <= 8,
            -1 <= next_col <= 8,
        ensures
            squares_of(moves@) == whole,
        decreases squares_ahead(next_row as int, next_col as int, direction),
    {
        let target = get_cell(board, next_row as usize, next_col as usize);
        match occupant_class(target, is_white) {
            Occupant::Empty => {
                moves.push((next_row as usize, next_col as usize));
            },
            Occupant::Opponent => {
                moves.push((next_row as usize, next_col as usize));
                break ;
            },
            Occupant::Own => {
                break ;
            },
        }
        next_row = next_row + dr;
        next_col = next_col + dc;
    }
}

/// The destinations of a sliding piece of colour `is_white` on
/// `(row, col)` that may move in each of `directions`: for each direction in
/// turn, the squares up to the first piece in the way, that piece's square
/// included where it is an opponent's.
pub fn generate_sliding_moves(
    board: &Board,
    row: usize,
    col: usize,
    directions: &[Direction],
    is_white: bool,
) -> (moves: Vec<(usize, usize)>)
    requires
        in_bounds(row as int, col as int),
    ensures
        squares_of(moves@) == sliding_moves(*board, row as int, col as int, directions@, is_white),
        all_in_bounds(squares_of(moves@)),
{
    let mut moves: Vec<(usize, usize)> = Vec::new();
    let mut i: usize = 0;
    while i < directions.len()
        invariant
            i <= directions.len(),
            in_bounds(row as int, col as int),
            squares_of(moves@) == sliding_moves(
                *board,
                row as int,
                col as int,
                directions@.take(i as int),
                is_white,
            ),
        decreases directions.len() - i,
    {
        extend_along(board, row, col, directions[i], is_white, &mut moves);
        proof {
            let taken = directions@.take(i + 1);
            assert(taken.drop_last() == directions@.take(i as int));
        }
        i = i + 1;
    }
    proof {
        assert(directions@.take(i as int) == directions@);
        lemma_sliding_moves_in_bounds(*board, row as int, col as int, directions@, is_white);
    }
    moves
}

/// The destinations of a rook of colour `is_white` on `(row, col)`: along
/// the column upwards, then downwards, then along the row to the left, then
/// to the right.
pub fn generate_rook_moves(
    board: &Board,
    row: usize,
    col: usize,
    is_white: bool,
) -> (moves: Vec<(usize, usize)>)
    requires
        in_bounds(row as int, col as int),
    ensures
        squares_of(moves@) == rook_moves(*board, row as int, col as int, is_white),
        all_in_bounds(squares_of(moves@)),
{
    let directions = [Direction::Up, Direction::Down, Direction::Left, Direction::Right];
    generate_sliding_moves(board, row, col, &directions, is_white)
}

/// The destinations of a bishop of colour `is_white` on `(row, col)`: along
/// the diagonals up-left, up-right, down-left and down-right, in that order.
pub fn generate_bishop_moves(
    board: &Board,
    row: usize,
    col: usize,
    is_white: bool,
) -> (moves: Vec<(usize, usize)>)
    requires
        in_bounds(row as int, col as int),
    ensures
        squares_of(moves@) == bishop_moves(*board, row as int, col as int, is_white),
        all_in_bounds(squares_of(moves@)),
{
    let directions = [
        Direction::UpLeft,
        Direction::UpRight,
        Direction::DownLeft,
        Direction::DownRight,
    ];
    generate_sliding_moves(board, row, col, &directions, is_white)
}

/// The rook's destinations as `generate_rook_moves` gives them, or the
/// error `SquareOutOfRange` where `(row, col)` does not lie on the board.
pub fn checked_rook_moves(
    board: &Board,
    row: usize,
    col: usize,
    is_white: bool,
) -> (result: Result<Vec<(usize, usize)>, SquareOutOfRange>)
    ensures
        result.is_ok() <==> in_bounds(row as int, col as int),
        result matches Ok(moves) ==> {
            &&& squares_of(moves@) == rook_moves(*board, row as int, col as int, is_white)
            &&& all_in_bounds(squares_of(moves@))
        },
        result matches Err(error) ==> error == (SquareOutOfRange { row, col }),
{
    match check_square(row, col) {
        Ok(_) => Ok(generate_rook_moves(board, row, col, is_white)),
        Err(error) => Err(error),
    }
}

/// The bishop's destinations as `generate_bishop_moves` gives them, or the
/// error `SquareOutOfRange` where `(row, col)` does not lie on the board.
pub fn checked_bishop_moves(
    board: &Board,
    row: usize,
    col: usize,
    is_white: bool,
) -> (result: Result<Vec<(usize, usize)>, SquareOutOfRange>)
    ensures
        result.is_ok() <==> in_bounds(row as int, col as int),
        result matches Ok(moves) ==> {
            &&& squares_of(moves@) == bishop_moves(*board, row as int, col as int, is_white)
            &&& all_in_bounds(squares_of(moves@))
        },
        result matches Err(error) ==> error == (SquareOutOfRange { row, col }),
{
    match check_square(row, col) {
        Ok(_) => Ok(generate_bishop_moves(board, row, col, is_white)),
        Err(error) => Err(error),
    }
}

} // verus!
