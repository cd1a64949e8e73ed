//! The board as text: one line per row, one character per cell.

use vstd::prelude::*;
use crate::board::{Board, cell_at, get_cell};
use crate::piece::{Piece, piece_to_symbol};

verus! {

/// The character that displays a cell: the piece's symbol, or `.` for an
/// empty cell.
pub open spec fn cell_symbol(cell: Option<Piece>) -> char {
    match cell {
        Some(piece) => piece.symbol(),
        None => '.',
    }
}

/// The character at position `i` of the text of row `row`: at the even
/// positions the symbols of the cells from column 0 on, each followed by a
/// space, and the line feed at the end.
pub open spec fn row_char(board: Board, row: int, i: int) -> char {
    if i == 16 {
        '\n'
    } else if i % 2 == 0 {
        cell_symbol(cell_at(board, row, i / 2))
    } else {
        ' '
    }
}

/// The text of a board: the texts of its rows, from row 0 on, 17 characters
/// each.
pub open spec fn board_text(board: Board) -> Seq<char> {
    Seq::new(136, |i: int| row_char(board, i / 17, i % 17))
}

/// The character that displays a cell.
pub fn cell_to_symbol(cell: Option<Piece>) -> (c: char)
    ensures
        c == cell_symbol(cell),
{
    match cell {
        Some(piece) => piece_to_symbol(&piece),
        None => '.',
    }
}

/// The text of a board, as its characters: a caller prints them in order.
pub fn render_board(board: &Board) -> (text: Vec<char>)
    ensures
        text@ == board_text(*board),
{
    let mut text: Vec<char> = Vec::new();
    let mut row: usize = 0;
    while row < 8
        invariant
            row <= 8,
            text@.len() == 17 * row,
            forall|i: int| 0 <= i < text@.len() ==> text@[i] == board_text(*board)[i],
        decreases 8 - row,
    {
        let mut col: usize = 0;
        while col < 8
            invariant
                row < 8,
                col <= 8,
                text@.len() == 17 * row + 2 * col,
                forall|i: int| 0 <= i < text@.len() ==> text@[i] == board_text(*board)[i],
            decreases 8 - col,
        {
            text.push(cell_to_symbol(get_cell(board, row, col)));
            text.push(' ');
            col = col + 1;
        }
        text.push('\n');
        row = row + 1;
    }
    text
}

} // verus!
