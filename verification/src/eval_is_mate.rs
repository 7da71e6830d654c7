//! Mate scored at a flat 10000.

use vstd::prelude::*;
use cozy_chess::Board;
use crate::board::{board_record, side_of, side_to_move, status, status_of};
use crate::types::{Color, GameStatus};

verus! {

/// 10000 against the side to move if it is mated, else 0.
pub open spec fn flat_mate_score(record: Seq<u16>) -> int {
    if status_of(record) == GameStatus::Won {
        match side_of(record) {
            Color::White => -10000,
            Color::Black => 10000,
        }
    } else {
        0
    }
}

/// Scores a mate at a flat 10000.
pub fn eval_is_mate(board: &Board) -> (score: i32)
    ensures
        score == flat_mate_score(board_record(*board)),
{
    if status(board) == GameStatus::Won {
        match side_to_move(board) {
            Color::White => -10000,
            Color::Black => 10000,
        }
    } else {
        0
    }
}

} // verus!
