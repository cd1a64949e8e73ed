//! The board: an 8×8 grid of optional pieces, row 0 being Black's back rank.

use vstd::prelude::*;
use crate::geometry::{Occupant, in_bounds, occupant_of};
use crate::piece::Piece;

verus! {

/// An 8×8 grid of cells, indexed by row and then by column. Row 0 is Black's
/// back rank, row 7 is White's.
pub type Board = [[Option<Piece>; 8]; 8];

/// The content of the cell at `(row, col)`.
pub open spec fn cell_at(board: Board, row: int, col: int) -> Option<Piece> {
    board[row][col]
}

/// The class of the occupant of the cell at `(row, col)` for a mover of
/// colour `is_white`.
pub open spec fn occupant_at(board: Board, row: int, col: int, is_white: bool) -> Occupant {
    occupant_of(cell_at(board, row, col), is_white)
}

/// Whether `square` lies on the board and holds no piece.
pub open spec fn empty_square(board: Board, square: (int, int)) -> bool {
    in_bounds(square.0, square.1) && cell_at(board, square.0, square.1).is_none()
}

/// The piece that starts on a back rank in column `col`: rook, knight,
/// bishop, queen, king, bishop, knight, rook.
pub open spec fn back_rank_piece(col: int, is_white: bool) -> Piece {
    if col == 0 || col == 7 {
        Piece::Rook(is_white)
    } else if col == 1 || col == 6 {
        Piece::Knight(is_white)
    } else if col == 2 || col == 5 {
        Piece::Bishop(is_white)
    } else if col == 3 {
        Piece::Queen(is_white)
    } else {
        Piece::King(is_white)
    }
}

/// The content of the cell at `(row, col)` in the opening position.
pub open spec fn initial_cell(row: int, col: int) -> Option<Piece> {
    if row == 0 {
        Some(back_rank_piece(col, false))
    } else if row == 1 {
        Some(Piece::Pawn(false))
    } else if row == 6 {
        Some(Piece::Pawn(true))
    } else if row == 7 {
        Some(back_rank_piece(col, true))
    } else {
        None
    }
}

/// Whether `board` holds the opening position.
pub open spec fn is_initial(board: Board) -> bool {
    forall|row: int, col: int|
        in_bounds(row, col) ==> #[trigger] cell_at(board, row, col) == initial_cell(row, col)
}

/// The content of the cell at `(row, col)`.
pub fn get_cell(board: &Board, row: usize, col: usize) -> (cell: Option<Piece>)
    requires
        in_bounds(row as int, col as int),
    ensures
        cell == cell_at(*board, row as int, col as int),
{
    board[row][col]
}

/// Puts `cell` at `(row, col)` and leaves every other cell as it was.
pub fn set_cell(board: &mut Board, row: usize, col: usize, cell: Option<Piece>)
    requires
        in_bounds(row as int, col as int),
    ensures
        cell_at(*final(board), row as int, col as int) == cell,
        forall|r: int, c: int|
            in_bounds(r, c) && (r != row || c != col) ==> #[trigger] cell_at(*final(board), r, c)
                == cell_at(*old(board), r, c),
{
    board[row][col] = cell;
}

/// The board in the opening position: 32 pieces on their home squares.
pub fn initialize_board() -> (board: Board)
    ensures
        is_initial(board),
{
    let mut board: Board = [[None; 8]; 8];

    let mut col: usize = 0;
    while col < 8
        invariant
            col <= 8,
            forall|r: int, c: int|
                in_bounds(r, c) ==> #[trigger] cell_at(board, r, c) == if (r == 1 || r == 6) && c
                    < col {
                    initial_cell(r, c)
                } else {
                    None
                },
        decreases 8 - col,
    {
        set_cell(&mut board, 1, col, Some(Piece::Pawn(false)));
        set_cell(&mut board, 6, col, Some(Piece::Pawn(true)));
        col = col + 1;
    }

    set_cell(&mut board, 0, 0, Some(Piece::Rook(false)));
    set_cell(&mut board, 0, 7, Some(Piece::Rook(false)));
    set_cell(&mut board, 7, 0, Some(Piece::Rook(true)));
    set_cell(&mut board, 7, 7, Some(Piece::Rook(true)));

    set_cell(&mut board, 0, 1, Some(Piece::Knight(false)));
    set_cell(&mut board, 0, 6, Some(Piece::Knight(false)));
    set_cell(&mut board, 7, 1, Some(Piece::Knight(true)));
    set_cell(&mut board, 7, 6, Some(Piece::Knight(true)));

    set_cell(&mut board, 0, 2, Some(Piece::Bishop(false)));
    set_cell(&mut board, 0, 5, Some(Piece::Bishop(false)));
    set_cell(&mut board, 7, 2, Some(Piece::Bishop(true)));
    set_cell(&mut board, 7, 5, Some(Piece::Bishop(true)));

    set_cell(&mut board, 0, 3, Some(Piece::Queen(false)));
    set_cell(&mut board, 7, 3, Some(Piece::Queen(true)));

    set_cell(&mut board, 0, 4, Some(Piece::King(false)));
    set_cell(&mut board, 7, 4, Some(Piece::King(true)));

    board
}

} // verus!
