//! The evaluator: mate and draw first, else material, piece placement and
//! pawn structure, blended between opening and endgame by the game phase.

use vstd::prelude::*;
use cozy_chess::Board;
use crate::board::{board_record, side_of, status, status_of};
use crate::eval::bounds::{lemma_eval_score_bounded, SCORE_LIMIT};
use crate::eval::eval_count_material::{
    eval_count_material_end,
    eval_count_material_opening,
    material_end,
    material_opening,
};
use crate::eval::eval_is_mate::{eval_is_mate, is_mate_value, mate_score, MAX_PLY};
use crate::eval::eval_mop_up::div_toward_zero;
use crate::eval::eval_pawn_structure::{eval_pawn_structure, pawn_structure};
use crate::eval::eval_pst::{eval_pst_end, eval_pst_opening, pst_end, pst_opening};
use crate::eval::game_phase::{game_phase, get_game_phase};
use crate::types::{Color, GameStatus};

verus! {

/// Largest magnitude of an opening or endgame score.
pub const SIDE_SCORE_LIMIT: i32 = 220_000;

/// The score by the opening's measures: material, half the piece-square
/// balance and a quarter of the pawn structure.
pub open spec fn opening_score(record: Seq<u16>) -> int {
    material_opening(record) + div_toward_zero(pst_opening(record), 2) + div_toward_zero(
        pawn_structure(record),
        4,
    )
}

/// The score by the endgame's measures.
pub open spec fn endgame_score(record: Seq<u16>) -> int {
    material_end(record) + div_toward_zero(pst_end(record), 2) + div_toward_zero(
        pawn_structure(record),
        4,
    )
}

/// The opening and endgame scores blended by the game phase, in 256 steps.
pub open spec fn blended_score(record: Seq<u16>) -> int {
    let phase = game_phase(record);
    div_toward_zero(opening_score(record) * (256 - phase) + endgame_score(record) * phase, 256)
}

/// The static score of a record `ply` half-moves from the root: the mate
/// score if the side to move is mated, zero if the game is drawn, else the
/// blended score.
pub open spec fn eval_score(record: Seq<u16>, ply: int) -> int {
    match status_of(record) {
        GameStatus::Won => mate_score(record, ply),
        GameStatus::Drawn => 0,
        GameStatus::Ongoing => blended_score(record),
    }
}

/// A drawn game scores exactly 0, and a mate up to `MAX_PLY` half-moves
/// from the root scores as a mate, against the side that is mated.
pub proof fn lemma_finished_games(record: Seq<u16>, ply: int)
    ensures
        status_of(record) == GameStatus::Drawn ==> eval_score(record, ply) == 0,
        status_of(record) == GameStatus::Won && 0 <= ply <= MAX_PLY ==> is_mate_value(
            eval_score(record, ply),
        ),
        status_of(record) == GameStatus::Won && 0 <= ply <= MAX_PLY ==> (eval_score(record, ply) < 0
            <==> side_of(record) == Color::White),
{
}

/// Scores a position by the opening's measures.
pub fn eval_opening(board: &Board, distance_from_root: u8) -> (score: i32)
    ensures
        score == opening_score(board_record(*board)),
        -SIDE_SCORE_LIMIT <= score <= SIDE_SCORE_LIMIT,
{
    let mut score = eval_count_material_opening(board);
    score += eval_pst_opening(board) / 2;
    score += eval_pawn_structure(board) / 4;
    score
}

/// Scores a position by the endgame's measures.
pub fn eval_endgame(board: &Board, distance_from_root: u8) -> (score: i32)
    ensures
        score == endgame_score(board_record(*board)),
        -SIDE_SCORE_LIMIT <= score <= SIDE_SCORE_LIMIT,
{
    let mut score = eval_count_material_end(board);
    score += eval_pst_end(board) / 2;
    score += eval_pawn_structure(board) / 4;
    score
}

/// Scores a position for White, in centipawns. The score stays within
/// `SCORE_LIMIT` of zero.
pub fn eval(board: &Board, distance_from_root: u8) -> (score: i32)
    ensures
        score == eval_score(board_record(*board), distance_from_root as int),
        -SCORE_LIMIT <= score <= SCORE_LIMIT,
{
    proof {
        lemma_eval_score_bounded(board_record(*board), distance_from_root as int);
    }
    let mate_score = eval_is_mate(board, distance_from_root);
    if mate_score != 0 {
        return mate_score;
    }
    if status(board) == GameStatus::Drawn {
        return 0;
    }
    let opening: i64 = eval_opening(board, distance_from_root) as i64;
    let endgame: i64 = eval_endgame(board, distance_from_root) as i64;
    let phase: i64 = get_game_phase(board) as i64;
    assert(-220_000 * 11_256 <= opening * (256 - phase) <= 220_000 * 11_256) by (nonlinear_arith)
        requires
            -220_000 <= opening <= 220_000,
            0 <= 256 - phase <= 11_256,
    ;
    assert(-220_000 * 11_000 <= endgame * phase <= 220_000 * 11_000) by (nonlinear_arith)
        requires
            -220_000 <= endgame <= 220_000,
            -11_000 <= phase <= 256,
    ;
    let blended: i64 = (opening * (256 - phase) + endgame * phase) / 256;
    blended as i32
}

} // verus!
