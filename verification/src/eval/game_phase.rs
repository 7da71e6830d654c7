//! How far the game has moved from the opening toward the endgame.

use vstd::prelude::*;
use cozy_chess::Board;
use crate::board::board_record;
use crate::eval::eval_count_material::{count_of, count_pieces};
use crate::eval::eval_mop_up::div_toward_zero;
use crate::types::{Color, Piece};

verus! {

/// Phase weight of the full set of pieces: four knights, four bishops, four
/// rooks at 2 and two queens at 4.
pub const TOTAL_PHASE: i32 = 24;

/// How many pieces of a kind both sides hold together.
pub open spec fn count_both(record: Seq<u16>, piece: Piece) -> int {
    count_of(record, Color::White, piece) + count_of(record, Color::Black, piece)
}

/// The phase weight that has left the board.
pub open spec fn phase_missing(record: Seq<u16>) -> int {
    TOTAL_PHASE - count_both(record, Piece::Knight) - count_both(record, Piece::Bishop) - 2
        * count_both(record, Piece::Rook) - 4 * count_both(record, Piece::Queen)
}

/// The game phase: 0 with all pieces on the board, 256 with none but kings
/// and pawns, rounded to the nearest step in between.
pub open spec fn game_phase(record: Seq<u16>) -> int {
    div_toward_zero(phase_missing(record) * 256 + 12, 24)
}

/// Computes the game phase from the pieces left on the board.
pub fn get_game_phase(board: &Board) -> (phase: i32)
    ensures
        phase == game_phase(board_record(*board)),
        -11_000 <= phase <= 256,
{
    let mut phase: i32 = TOTAL_PHASE;
    phase -= count_pieces(board, Color::White, Piece::Knight);
    phase -= count_pieces(board, Color::Black, Piece::Knight);
    phase -= count_pieces(board, Color::White, Piece::Bishop);
    phase -= count_pieces(board, Color::Black, Piece::Bishop);
    phase -= count_pieces(board, Color::White, Piece::Rook) * 2;
    phase -= count_pieces(board, Color::Black, Piece::Rook) * 2;
    phase -= count_pieces(board, Color::White, Piece::Queen) * 4;
    phase -= count_pieces(board, Color::Black, Piece::Queen) * 4;
    (phase * 256 + 12) / 24
}

} // verus!
