//! Material balance by the plain values: pawn 100, knight and bishop 300,
//! rook 500, queen 900.

use vstd::prelude::*;
use cozy_chess::Board;
use crate::board::board_record;
use crate::eval::eval_count_material::{count_balance, count_pieces};
use crate::types::{Color, Piece};

verus! {

/// White's material less Black's by the plain values.
pub open spec fn material_plain(record: Seq<u16>) -> int {
    count_balance(record, Piece::Pawn) * 100 + count_balance(record, Piece::Knight) * 300
        + count_balance(record, Piece::Bishop) * 300 + count_balance(record, Piece::Rook) * 500
        + count_balance(record, Piece::Queen) * 900
}

/// Counts the material by the plain values.
pub fn eval_count_material(board: &Board) -> (score: i32)
    ensures
        score == material_plain(board_record(*board)),
        -140_000 <= score <= 140_000,
{
    let mut score: i32 = 0;
    score += count_pieces(board, Color::White, Piece::Pawn) * 100;
    score += count_pieces(board, Color::White, Piece::Knight) * 300;
    score += count_pieces(board, Color::White, Piece::Bishop) * 300;
    score += count_pieces(board, Color::White, Piece::Rook) * 500;
    score += count_pieces(board, Color::White, Piece::Queen) * 900;
    score -= count_pieces(board, Color::Black, Piece::Pawn) * 100;
    score -= count_pieces(board, Color::Black, Piece::Knight) * 300;
    score -= count_pieces(board, Color::Black, Piece::Bishop) * 300;
    score -= count_pieces(board, Color::Black, Piece::Rook) * 500;
    score -= count_pieces(board, Color::Black, Piece::Queen) * 900;
    score
}

} // verus!
