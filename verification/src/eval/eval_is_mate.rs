//! Scoring of checkmate: the sooner, the larger.

use vstd::prelude::*;
use cozy_chess::Board;
use crate::board::{board_record, side_of, side_to_move, status, status_of};
use crate::types::{Color, GameStatus};

verus! {

/// The score of a mate delivered at the root.
pub const MATE_SCORE: i32 = 1_000_000;

/// What a mate loses in score for each half-move it lies from the root.
pub const MATE_PLY_PENALTY: i32 = 1_000;

/// Scores at or beyond this magnitude announce a forced mate.
pub const MATE_THRESHOLD: i32 = 900_000;

/// The deepest half-move from the root that the search visits. Up to here a
/// mate's score stays at or above `MATE_THRESHOLD`.
pub const MAX_PLY: u8 = 100;

/// The magnitude of a mate found `ply` half-moves from the root.
pub open spec fn mate_magnitude(ply: int) -> int {
    MATE_SCORE - MATE_PLY_PENALTY * ply
}

/// The score of a record for being mate: zero unless the side to move is
/// mated, else the mate's magnitude, counted against the mated side.
pub open spec fn mate_score(record: Seq<u16>, ply: int) -> int {
    if status_of(record) == GameStatus::Won {
        match side_of(record) {
            Color::White => -mate_magnitude(ply),
            Color::Black => mate_magnitude(ply),
        }
    } else {
        0
    }
}

/// Whether a score announces a forced mate.
pub open spec fn is_mate_value(score: int) -> bool {
    score >= MATE_THRESHOLD || score <= -MATE_THRESHOLD
}

/// Tells whether a score announces a forced mate.
pub fn is_mate_score(score: i32) -> (mate: bool)
    ensures
        mate == is_mate_value(score as int),
{
    score >= MATE_THRESHOLD || score <= -MATE_THRESHOLD
}

/// Scores a mate by its distance from the root; 0 where there is none.
pub fn eval_is_mate(board: &Board, distance_from_root: u8) -> (score: i32)
    ensures
        score == mate_score(board_record(*board), distance_from_root as int),
        score != 0 <==> status_of(board_record(*board)) == GameStatus::Won,
        distance_from_root <= MAX_PLY && score != 0 ==> is_mate_value(score as int),
{
    if status(board) == GameStatus::Won {
        let magnitude: i32 = MATE_SCORE - MATE_PLY_PENALTY * (distance_from_root as i32);
        match side_to_move(board) {
            Color::White => -magnitude,
            Color::Black => magnitude,
        }
    } else {
        0
    }
}

/// A mate's magnitude falls strictly with every half-move further from the
/// root, and up to `MAX_PLY` it stays at or above `MATE_THRESHOLD`.
pub proof fn lemma_mate_magnitude_decreases(near: int, far: int)
    requires
        0 <= near < far,
    ensures
        mate_magnitude(near) > mate_magnitude(far),
        far <= MAX_PLY ==> mate_magnitude(far) >= MATE_THRESHOLD,
{
}

} // verus!
