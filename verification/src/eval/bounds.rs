//! How large the evaluator's scores can get: whatever stands on the board,
//! a static score stays far inside the range of the scores.

use vstd::prelude::*;
use crate::board::{lemma_squares_of, squares_of};
use crate::eval::eval::{blended_score, endgame_score, eval_score, opening_score, SIDE_SCORE_LIMIT};
use crate::eval::eval_count_material::{
    count_of,
    material_end,
    material_opening,
    MATERIAL_LIMIT,
};
use crate::eval::eval_pawn_structure::{
    count_in_box,
    pawn_score,
    pawn_scores,
    pawn_structure,
};
use crate::eval::eval_pst::{
    piece_table_balance,
    pst_end,
    pst_opening,
    table_index,
    table_sum,
    table_within_limit,
    BISHOP_OPENING_PST,
    KING_END_PST,
    KING_OPENING_PST,
    KNIGHT_OPENING_PST,
    PAWN_OPENING_PST,
    QUEEN_OPENING_PST,
    ROOK_OPENING_PST,
};
use crate::eval::game_phase::game_phase;
use crate::types::{Color, Piece};

verus! {

/// Largest magnitude of a static score.
pub const SCORE_LIMIT: i32 = 20_000_000;

/// A table sum over squares of the board stays within 50 for each square.
pub proof fn lemma_table_sum_bounded(squares: Seq<u8>, table: Seq<i32>, color: Color, upto: int)
    requires
        0 <= upto <= squares.len(),
        forall|i: int| 0 <= i < squares.len() ==> squares[i] < 64,
        table.len() == 64,
        table_within_limit(table),
    ensures
        -50 * upto <= table_sum(squares, table, color, upto) <= 50 * upto,
    decreases upto,
{
    if upto > 0 {
        lemma_table_sum_bounded(squares, table, color, upto - 1);
        let square = squares[upto - 1];
        let index = table_index(square, color);
        assert(0 <= index < 64);
        assert(-50 <= table[index] <= 50);
    }
}

/// The table balance of one kind of piece stays within 6400.
pub proof fn lemma_piece_table_balance_bounded(record: Seq<u16>, table: Seq<i32>, piece: Piece)
    requires
        table.len() == 64,
        table_within_limit(table),
    ensures
        -6400 <= piece_table_balance(record, table, piece) <= 6400,
{
    let white = squares_of(record, Color::White, piece);
    let black = squares_of(record, Color::Black, piece);
    lemma_squares_of(record, Color::White, piece);
    lemma_squares_of(record, Color::Black, piece);
    lemma_table_sum_bounded(white, table, Color::White, white.len() as int);
    lemma_table_sum_bounded(black, table, Color::Black, black.len() as int);
}

/// The piece-square balance stays within 38,400.
pub proof fn lemma_pst_bounded(record: Seq<u16>)
    ensures
        -38_400 <= pst_opening(record) <= 38_400,
        -38_400 <= pst_end(record) <= 38_400,
{
    lemma_piece_table_balance_bounded(record, PAWN_OPENING_PST@, Piece::Pawn);
    lemma_piece_table_balance_bounded(record, KNIGHT_OPENING_PST@, Piece::Knight);
    lemma_piece_table_balance_bounded(record, BISHOP_OPENING_PST@, Piece::Bishop);
    lemma_piece_table_balance_bounded(record, ROOK_OPENING_PST@, Piece::Rook);
    lemma_piece_table_balance_bounded(record, QUEEN_OPENING_PST@, Piece::Queen);
    lemma_piece_table_balance_bounded(record, KING_OPENING_PST@, Piece::King);
    lemma_piece_table_balance_bounded(record, KING_END_PST@, Piece::King);
}

/// A box holds at most as many squares of a list as were counted.
pub proof fn lemma_count_in_box_bounded(
    squares: Seq<u8>,
    lo_file: int,
    hi_file: int,
    lo_rank: int,
    hi_rank: int,
    upto: int,
)
    requires
        0 <= upto,
    ensures
        0 <= count_in_box(squares, lo_file, hi_file, lo_rank, hi_rank, upto) <= upto,
    decreases upto,
{
    if upto > 0 {
        lemma_count_in_box_bounded(squares, lo_file, hi_file, lo_rank, hi_rank, upto - 1);
    }
}

/// One pawn's structure score lies between -1625 and 350.
pub proof fn lemma_pawn_score_bounded(square: u8, own: Seq<u8>, other: Seq<u8>, color: Color)
    requires
        square < 64,
        own.len() <= 64,
    ensures
        -1625 <= pawn_score(square, own, other, color) <= 350,
{
    let file = square % 8;
    lemma_count_in_box_bounded(own, file as int, file as int, 0, 7, own.len() as int);
    lemma_count_in_box_bounded(own, file - 1, file - 1, 0, 7, own.len() as int);
    lemma_count_in_box_bounded(own, file + 1, file + 1, 0, 7, own.len() as int);
}

/// The structure scores of a side's pawns stay within 1625 for each pawn.
pub proof fn lemma_pawn_scores_bounded(own: Seq<u8>, other: Seq<u8>, color: Color, upto: int)
    requires
        0 <= upto <= own.len() <= 64,
        forall|i: int| 0 <= i < own.len() ==> own[i] < 64,
    ensures
        -1625 * upto <= pawn_scores(own, other, color, upto) <= 1625 * upto,
    decreases upto,
{
    if upto > 0 {
        lemma_pawn_scores_bounded(own, other, color, upto - 1);
        lemma_pawn_score_bounded(own[upto - 1], own, other, color);
    }
}

/// The pawn-structure balance stays within 208,000.
pub proof fn lemma_pawn_structure_bounded(record: Seq<u16>)
    ensures
        -208_000 <= pawn_structure(record) <= 208_000,
{
    let white = squares_of(record, Color::White, Piece::Pawn);
    let black = squares_of(record, Color::Black, Piece::Pawn);
    lemma_squares_of(record, Color::White, Piece::Pawn);
    lemma_squares_of(record, Color::Black, Piece::Pawn);
    lemma_pawn_scores_bounded(white, black, Color::White, white.len() as int);
    lemma_pawn_scores_bounded(black, white, Color::Black, black.len() as int);
}

/// No side holds more than 64 pieces of a kind.
pub proof fn lemma_counts_bounded(record: Seq<u16>, piece: Piece)
    ensures
        0 <= count_of(record, Color::White, piece) <= 64,
        0 <= count_of(record, Color::Black, piece) <= 64,
{
    lemma_squares_of(record, Color::White, piece);
    lemma_squares_of(record, Color::Black, piece);
}

/// The material balance stays within `MATERIAL_LIMIT`.
pub proof fn lemma_material_bounded(record: Seq<u16>)
    ensures
        -MATERIAL_LIMIT <= material_opening(record) <= MATERIAL_LIMIT,
        -MATERIAL_LIMIT <= material_end(record) <= MATERIAL_LIMIT,
{
    lemma_counts_bounded(record, Piece::Pawn);
    lemma_counts_bounded(record, Piece::Knight);
    lemma_counts_bounded(record, Piece::Bishop);
    lemma_counts_bounded(record, Piece::Rook);
    lemma_counts_bounded(record, Piece::Queen);
}

/// The game phase lies between -11,000 and 256.
pub proof fn lemma_game_phase_bounded(record: Seq<u16>)
    ensures
        -11_000 <= game_phase(record) <= 256,
{
    lemma_counts_bounded(record, Piece::Knight);
    lemma_counts_bounded(record, Piece::Bishop);
    lemma_counts_bounded(record, Piece::Rook);
    lemma_counts_bounded(record, Piece::Queen);
}

/// The opening and endgame scores stay within `SIDE_SCORE_LIMIT`, and the
/// score blended of them within `SCORE_LIMIT`.
pub proof fn lemma_blended_score_bounded(record: Seq<u16>)
    ensures
        -SIDE_SCORE_LIMIT <= opening_score(record) <= SIDE_SCORE_LIMIT,
        -SIDE_SCORE_LIMIT <= endgame_score(record) <= SIDE_SCORE_LIMIT,
        -SCORE_LIMIT <= blended_score(record) <= SCORE_LIMIT,
{
    lemma_material_bounded(record);
    lemma_pst_bounded(record);
    lemma_pawn_structure_bounded(record);
    lemma_game_phase_bounded(record);
    let opening = opening_score(record);
    let endgame = endgame_score(record);
    let phase = game_phase(record);
    assert(-220_000 * 11_256 <= opening * (256 - phase) <= 220_000 * 11_256) by (nonlinear_arith)
        requires
            -220_000 <= opening <= 220_000,
            0 <= 256 - phase <= 11_256,
    ;
    assert(-220_000 * 11_000 <= endgame * phase <= 220_000 * 11_000) by (nonlinear_arith)
        requires
            -220_000 <= endgame <= 220_000,
            -11_000 <= phase <= 256,
    ;
}

/// A static score stays within `SCORE_LIMIT`, whatever stands on the
/// board and however far from the root it is taken: it never comes near
/// the ends of the range of the scores.
pub proof fn lemma_eval_score_bounded(record: Seq<u16>, ply: int)
    requires
        0 <= ply <= u8::MAX,
    ensures
        -SCORE_LIMIT <= eval_score(record, ply) <= SCORE_LIMIT,
{
    lemma_blended_score_bounded(record);
}

} // verus!
