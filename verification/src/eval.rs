//! Static evaluation of a position, in centipawns from White's side.

pub mod bounds;
pub mod eval;
pub mod eval_count_material;
pub mod eval_is_mate;
pub mod eval_mop_up;
pub mod eval_pawn_structure;
pub mod eval_pst;
pub mod game_phase;
pub mod mirror;

use vstd::prelude::*;
use cozy_chess::Board;
use crate::board::{board_record, status, status_of};
use crate::eval_count_material::{eval_count_material, material_plain};
use crate::eval_mate_in::{eval_is_mate, near_mate_score, MAX_DISTANCE};
use crate::types::GameStatus;

verus! {

/// The score by material and mate alone: 0 for a drawn game, else the
/// plain material balance and the mate score by distance.
pub open spec fn plain_score(record: Seq<u16>, distance: int) -> int {
    if status_of(record) == GameStatus::Drawn {
        0
    } else {
        material_plain(record) + near_mate_score(record, distance)
    }
}

/// Scores a position by material and mate alone.
pub fn eval(board: &Board, distance_from_root: u32) -> (score: i32)
    requires
        distance_from_root <= MAX_DISTANCE,
    ensures
        score == plain_score(board_record(*board), distance_from_root as int),
        -300_000 <= score <= 300_000,
{
    let mut score: i32 = 0;
    score += eval_count_material(board);
    score += eval_is_mate(board, distance_from_root);
    if status(board) == GameStatus::Drawn {
        score = 0;
    }
    score
}

} // verus!
