//! Plain value types shared by the whole engine.

use vstd::prelude::*;

verus! {

/// The two sides.
#[derive(Clone, Copy, Debug, PartialEq, Eq, Structural)]
pub enum Color {
    White,
    Black,
}

/// The six kinds of chess piece, in ascending order of rough value.
#[derive(Clone, Copy, Debug, PartialEq, Eq, Structural)]
pub enum Piece {
    Pawn,
    Knight,
    Bishop,
    Rook,
    Queen,
    King,
}

/// Whether a game has ended, and how.
#[derive(Clone, Copy, Debug, PartialEq, Eq, Structural)]
pub enum GameStatus {
    /// The side to move has been checkmated.
    Won,
    /// Stalemate, or one hundred half-moves without progress.
    Drawn,
    /// The game goes on.
    Ongoing,
}

/// A move: the square it leaves, the square it reaches, and the piece a
/// pawn turns into on the last rank. Squares count from 0 (a1) along the
/// ranks to 63 (h8). Castling is written as the king moving onto its own rook.
#[derive(Clone, Copy, Debug, PartialEq, Eq, Structural)]
pub struct Move {
    pub from: u8,
    pub to: u8,
    pub promotion: Option<Piece>,
}

impl Color {
    /// 0 for White, 1 for Black.
    pub open spec fn index(self) -> int {
        match self {
            Color::White => 0,
            Color::Black => 1,
        }
    }
}

impl Piece {
    /// 0 for a pawn up to 5 for a king.
    pub open spec fn index(self) -> int {
        match self {
            Piece::Pawn => 0,
            Piece::Knight => 1,
            Piece::Bishop => 2,
            Piece::Rook => 3,
            Piece::Queen => 4,
            Piece::King => 5,
        }
    }
}

} // verus!
