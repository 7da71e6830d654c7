//! A move written out with castling told from the pieces on its squares.

use vstd::prelude::*;
use cozy_chess::Board;
use crate::board::{board_record, code_piece, piece_on};
use crate::text::{move_chars, push_move};
use crate::types::{Move, Piece};

verus! {

/// A move with castling told from the pieces alone: where a king moves
/// onto a rook in a corner, the two-square move of a king from its home
/// square on that rank stands for it, whoever the rook belongs to. Any
/// other move stands as it is. The `go` command does not name moves by
/// this rule but by `board::record_uci_text`, which knows the castling
/// rights.
pub open spec fn corner_castling(record: Seq<u16>, mv: Move) -> Move {
    if mv.from < 64 && mv.to < 64 && code_piece(record[mv.from as int]) == Some(Piece::King)
        && code_piece(record[mv.to as int]) == Some(Piece::Rook) {
        if mv.to == 0 {
            Move { from: 4, to: 2, promotion: None }
        } else if mv.to == 7 {
            Move { from: 4, to: 6, promotion: None }
        } else if mv.to == 56 {
            Move { from: 60, to: 58, promotion: None }
        } else if mv.to == 63 {
            Move { from: 60, to: 62, promotion: None }
        } else {
            mv
        }
    } else {
        mv
    }
}

/// Writes a move in coordinates, a king's move onto a rook in a corner as
/// the castling move of that corner.
pub fn format_move(mv: &Move, board: &Board) -> (text: String)
    ensures
        text@ == move_chars(corner_castling(board_record(*board), *mv)),
{
    let mut named = *mv;
    if mv.from < 64 && mv.to < 64 && piece_on(board, mv.from) == Some(Piece::King) && piece_on(
        board,
        mv.to,
    ) == Some(Piece::Rook) {
        if mv.to == 0 {
            named = Move { from: 4, to: 2, promotion: None };
        } else if mv.to == 7 {
            named = Move { from: 4, to: 6, promotion: None };
        } else if mv.to == 56 {
            named = Move { from: 60, to: 58, promotion: None };
        } else if mv.to == 63 {
            named = Move { from: 60, to: 62, promotion: None };
        }
    }
    let mut text = String::new();
    push_move(&mut text, named);
    assert(text@ =~= move_chars(named));
    text
}

} // verus!
