//! Squares, bounds and the classification of a cell's occupant.

use vstd::prelude::*;
use crate::piece::Piece;

verus! {

/// Whether `(row, col)` names a square of the board.
pub open spec fn in_bounds(row: int, col: int) -> bool {
    0 <= row < 8 && 0 <= col < 8
}

/// Whether `(row, col)` names a square of the board. The coordinates are
/// signed, so that a candidate computed by an offset can be tested before it
/// is used as an index.
pub fn is_in_bounds(row: isize, col: isize) -> (b: bool)
    ensures
        b == in_bounds(row as int, col as int),
{
    row >= 0 && row < 8 && col >= 0 && col < 8
}

/// The error of a request about a square that does not lie on the board: the
/// coordinates as they were given.
#[derive(Debug, Clone, Copy, PartialEq, Eq, Structural)]
pub struct SquareOutOfRange {
    pub row: usize,
    pub col: usize,
}

/// Tests that `(row, col)` names a square of the board.
pub fn check_square(row: usize, col: usize) -> (result: Result<(), SquareOutOfRange>)
    ensures
        result.is_ok() <==> in_bounds(row as int, col as int),
        result matches Err(error) ==> error == (SquareOutOfRange { row, col }),
{
    if row < 8 && col < 8 {
        Ok(())
    } else {
        Err(SquareOutOfRange { row, col })
    }
}

/// What stands on a cell, as seen by the side that moves.
#[derive(Debug, Clone, Copy, PartialEq, Eq, Structural)]
pub enum Occupant {
    /// No piece.
    Empty,
    /// A piece of the mover's colour.
    Own,
    /// A piece of the other colour.
    Opponent,
}

/// The class of `cell` for a mover of colour `is_white`.
pub open spec fn occupant_of(cell: Option<Piece>, is_white: bool) -> Occupant {
    match cell {
        None => Occupant::Empty,
        Some(piece) => if piece.white() == is_white {
            Occupant::Own
        } else {
            Occupant::Opponent
        },
    }
}

/// Classifies `cell` for a mover of colour `is_white`. Every capture and
/// blocking decision of the move generators goes through this function.
pub fn occupant_class(cell: Option<Piece>, is_white: bool) -> (class: Occupant)
    ensures
        class == occupant_of(cell, is_white),
{
    match cell {
        None => Occupant::Empty,
        Some(piece) => if piece.is_white() == is_white {
            Occupant::Own
        } else {
            Occupant::Opponent
        },
    }
}

/// Whether `piece` is a piece of the side opposed to a mover of colour
/// `is_white`. An empty cell holds no opponent.
pub fn is_opponent(piece: Option<Piece>, is_white: bool) -> (b: bool)
    ensures
        b == (occupant_of(piece, is_white) == Occupant::Opponent),
{
    match occupant_class(piece, is_white) {
        Occupant::Opponent => true,
        _ => false,
    }
}

/// One of the eight directions in which a piece can slide. "Up" is towards
/// row 0 and "left" is towards column 0.
#[derive(Debug, Clone, Copy, PartialEq, Eq, Structural)]
pub enum Direction {
    Up,
    Down,
    Left,
    Right,
    UpLeft,
    UpRight,
    DownLeft,
    DownRight,
}

impl Direction {
    /// The change of the row index in one step: -1, 0 or 1.
    pub open spec fn row_step(self) -> int {
        match self {
            Direction::Up | Direction::UpLeft | Direction::UpRight => -1,
            Direction::Down | Direction::DownLeft | Direction::DownRight => 1,
            Direction::Left | Direction::Right => 0,
        }
    }

    /// The change of the column index in one step: -1, 0 or 1.
    pub open spec fn col_step(self) -> int {
        match self {
            Direction::Left | Direction::UpLeft | Direction::DownLeft => -1,
            Direction::Right | Direction::UpRight | Direction::DownRight => 1,
            Direction::Up | Direction::Down => 0,
        }
    }

    /// The change of the row index in one step.
    pub fn row_delta(self) -> (delta: isize)
        ensures
            delta == self.row_step(),
    {
        match self {
            Direction::Up | Direction::UpLeft | Direction::UpRight => -1,
            Direction::Down | Direction::DownLeft | Direction::DownRight => 1,
            Direction::Left | Direction::Right => 0,
        }
    }

    /// The change of the column index in one step.
    pub fn col_delta(self) -> (delta: isize)
        ensures
            delta == self.col_step(),
    {
        match self {
            Direction::Left | Direction::UpLeft | Direction::DownLeft => -1,
            Direction::Right | Direction::UpRight | Direction::DownRight => 1,
            Direction::Up | Direction::Down => 0,
        }
    }
}

/// The square `k` steps away from `(row, col)` in `direction`. It need not
/// lie on the board.
pub open spec fn square_at(row: int, col: int, direction: Direction, k: int) -> (int, int) {
    match direction {
        Direction::Up => (row - k, col),
        Direction::Down => (row + k, col),
        Direction::Left => (row, col - k),
        Direction::Right => (row, col + k),
        Direction::UpLeft => (row - k, col - k),
        Direction::UpRight => (row - k, col + k),
        Direction::DownLeft => (row + k, col - k),
        Direction::DownRight => (row + k, col + k),
    }
}

/// A move list as a sequence of squares with mathematical coordinates.
pub open spec fn squares_of(moves: Seq<(usize, usize)>) -> Seq<(int, int)> {
    moves.map_values(|m: (usize, usize)| (m.0 as int, m.1 as int))
}

/// Whether every square of `squares` lies on the board.
pub open spec fn all_in_bounds(squares: Seq<(int, int)>) -> bool {
    forall|i: int| 0 <= i < squares.len() ==> in_bounds((#[trigger] squares[i]).0, squares[i].1)
}

/// One step in a direction changes each coordinate by that direction's
/// step, and `k` steps lead to the same square as one step followed by
/// `k - 1` more.
pub proof fn lemma_square_at_step(row: int, col: int, direction: Direction, k: int)
    ensures
        square_at(row, col, direction, 0) == (row, col),
        square_at(row, col, direction, 1) == (row + direction.row_step(), col + direction.col_step()),
        square_at(row, col, direction, k) == square_at(
            row + direction.row_step(),
            col + direction.col_step(),
            direction,
            k - 1,
        ),
{
}

/// Two walks that leave one square in different directions never meet: a
/// square at a positive distance determines both direction and distance.
pub proof fn lemma_square_at_injective(
    row: int,
    col: int,
    d1: Direction,
    k1: int,
    d2: Direction,
    k2: int,
)
    requires
        k1 >= 1,
        k2 >= 1,
        square_at(row, col, d1, k1) == square_at(row, col, d2, k2),
    ensures
        d1 == d2,
        k1 == k2,
{
}

/// Two move lists that name the same squares are the same list.
pub proof fn lemma_squares_of_injective(first: Seq<(usize, usize)>, second: Seq<(usize, usize)>)
    requires
        squares_of(first) == squares_of(second),
    ensures
        first == second,
{
    assert(first.len() == squares_of(first).len());
    assert(second.len() == squares_of(second).len());
    assert forall|i: int| 0 <= i < first.len() implies first[i] == second[i] by {
        assert(squares_of(first)[i] == squares_of(second)[i]);
    }
    assert(first =~= second);
}

} // verus!
