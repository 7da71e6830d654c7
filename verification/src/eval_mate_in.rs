//! Mate scored by its distance from the root, from a base of 100000.

use vstd::prelude::*;
use cozy_chess::Board;
use crate::board::{board_record, side_of, side_to_move, status, status_of};
use crate::types::{Color, GameStatus};

verus! {

/// The farthest distance from the root for which a mate is scored.
pub const MAX_DISTANCE: u32 = 100;

/// `100000 - 1000 * distance` against the side to move if it is mated,
/// else 0.
pub open spec fn near_mate_score(record: Seq<u16>, distance: int) -> int {
    if status_of(record) == GameStatus::Won {
        match side_of(record) {
            Color::White => -(100000 - 1000 * distance),
            Color::Black => 100000 - 1000 * distance,
        }
    } else {
        0
    }
}

/// Scores a mate by its distance from the root.
pub fn eval_is_mate(board: &Board, distance_from_root: u32) -> (score: i32)
    requires
        distance_from_root <= MAX_DISTANCE,
    ensures
        score == near_mate_score(board_record(*board), distance_from_root as int),
{
    if status(board) == GameStatus::Won {
        let magnitude: i32 = 100000 - 1000 * (distance_from_root as i32);
        match side_to_move(board) {
            Color::White => -magnitude,
            Color::Black => magnitude,
        }
    } else {
        0
    }
}

} // verus!
