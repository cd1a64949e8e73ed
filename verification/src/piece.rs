//! Pieces: a closed set of kinds, each carrying the colour of its side.

use vstd::prelude::*;

verus! {

/// A chess piece. The payload is the colour: `true` for White, `false` for
/// Black.
#[derive(Debug, Clone, Copy, PartialEq, Eq, Structural)]
pub enum Piece {
    King(bool),
    Queen(bool),
    Rook(bool),
    Bishop(bool),
    Knight(bool),
    Pawn(bool),
}

impl Piece {
    /// Whether the piece belongs to White.
    pub open spec fn white(self) -> bool {
        match self {
            Piece::King(w) => w,
            Piece::Queen(w) => w,
            Piece::Rook(w) => w,
            Piece::Bishop(w) => w,
            Piece::Knight(w) => w,
            Piece::Pawn(w) => w,
        }
    }

    /// The lower-case letter that stands for the piece's kind.
    pub open spec fn letter(self) -> char {
        match self {
            Piece::King(_) => 'k',
            Piece::Queen(_) => 'q',
            Piece::Rook(_) => 'r',
            Piece::Bishop(_) => 'b',
            Piece::Knight(_) => 'n',
            Piece::Pawn(_) => 'p',
        }
    }

    /// The display character: the kind's letter, in upper case for White and
    /// in lower case for Black.
    pub open spec fn symbol(self) -> char {
        if self.white() {
            upper_case(self.letter())
        } else {
            self.letter()
        }
    }

    /// Whether the piece belongs to White.
    pub fn is_white(&self) -> (w: bool)
        ensures
            w == self.white(),
    {
        match *self {
            Piece::King(w) => w,
            Piece::Queen(w) => w,
            Piece::Rook(w) => w,
            Piece::Bishop(w) => w,
            Piece::Knight(w) => w,
            Piece::Pawn(w) => w,
        }
    }
}

/// The upper-case form of a lower-case ASCII letter: 32 code points below it.
pub open spec fn upper_case(c: char) -> char {
    ((c as u32) - 32) as char
}

/// The character that displays a piece: the letter of its kind, an
/// upper-case letter for a white piece and a lower-case letter for a black
/// one.
pub fn piece_to_symbol(piece: &Piece) -> (c: char)
    ensures
        c == piece.symbol(),
        piece.white() ==> 'A' <= c <= 'Z',
        !piece.white() ==> 'a' <= c <= 'z',
{
    match *piece {
        Piece::King(true) => 'K',
        Piece::Queen(true) => 'Q',
        Piece::Rook(true) => 'R',
        Piece::Bishop(true) => 'B',
        Piece::Knight(true) => 'N',
        Piece::Pawn(true) => 'P',
        Piece::King(false) => 'k',
        Piece::Queen(false) => 'q',
        Piece::Rook(false) => 'r',
        Piece::Bishop(false) => 'b',
        Piece::Knight(false) => 'n',
        Piece::Pawn(false) => 'p',
    }
}

/// Pieces that differ, in kind or in colour, are displayed by different
/// characters, and none of them by the `.` of an empty cell.
pub proof fn lemma_symbol_injective(first: Piece, second: Piece)
    ensures
        first.symbol() == second.symbol() ==> first == second,
        first.symbol() != '.',
{
}

} // verus!
