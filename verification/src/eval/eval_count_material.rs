//! Material balance: what the pieces on the board are worth.

use vstd::prelude::*;
use cozy_chess::Board;
use crate::board::{board_record, colored_pieces, lemma_squares_of, squares_of};
use crate::types::{Color, Piece};

verus! {

/// The worth of a piece while the board is full.
pub open spec fn piece_value_opening(piece: Piece) -> int {
    match piece {
        Piece::Pawn => 80,
        Piece::Knight => 320,
        Piece::Bishop => 330,
        Piece::Rook => 470,
        Piece::Queen => 900,
        Piece::King => 0,
    }
}

/// The worth of a piece in the endgame.
pub open spec fn piece_value_end(piece: Piece) -> int {
    match piece {
        Piece::Pawn => 100,
        Piece::Knight => 320,
        Piece::Bishop => 330,
        Piece::Rook => 530,
        Piece::Queen => 900,
        Piece::King => 0,
    }
}

/// How many pieces of one colour and kind a record holds.
pub open spec fn count_of(record: Seq<u16>, color: Color, piece: Piece) -> int {
    squares_of(record, color, piece).len() as int
}

/// White's count of a kind of piece less Black's.
pub open spec fn count_balance(record: Seq<u16>, piece: Piece) -> int {
    count_of(record, Color::White, piece) - count_of(record, Color::Black, piece)
}

/// The bonus for owning two bishops or more, White's less Black's.
pub open spec fn bishop_pair_balance(record: Seq<u16>, bonus: int) -> int {
    (if count_of(record, Color::White, Piece::Bishop) >= 2 {
        bonus
    } else {
        0
    }) - (if count_of(record, Color::Black, Piece::Bishop) >= 2 {
        bonus
    } else {
        0
    })
}

/// Material balance by the opening's values, with 50 for the bishop pair.
pub open spec fn material_opening(record: Seq<u16>) -> int {
    count_balance(record, Piece::Pawn) * 80 + count_balance(record, Piece::Knight) * 320
        + count_balance(record, Piece::Bishop) * 330 + count_balance(record, Piece::Rook) * 470
        + count_balance(record, Piece::Queen) * 900 + bishop_pair_balance(record, 50)
}

/// Material balance by the endgame's values, with 100 for the bishop pair.
pub open spec fn material_end(record: Seq<u16>) -> int {
    count_balance(record, Piece::Pawn) * 100 + count_balance(record, Piece::Knight) * 320
        + count_balance(record, Piece::Bishop) * 330 + count_balance(record, Piece::Rook) * 530
        + count_balance(record, Piece::Queen) * 900 + bishop_pair_balance(record, 100)
}

/// Largest magnitude of a material balance.
pub const MATERIAL_LIMIT: i32 = 140_000;

/// The worth of a piece while the board is full.
pub fn get_piece_value_opening(piece: Piece) -> (value: i32)
    ensures
        value == piece_value_opening(piece),
{
    match piece {
        Piece::Pawn => 80,
        Piece::Knight => 320,
        Piece::Bishop => 330,
        Piece::Rook => 470,
        Piece::Queen => 900,
        Piece::King => 0,
    }
}

/// The worth of a piece in the endgame.
pub fn get_piece_value_end(piece: Piece) -> (value: i32)
    ensures
        value == piece_value_end(piece),
{
    match piece {
        Piece::Pawn => 100,
        Piece::Knight => 320,
        Piece::Bishop => 330,
        Piece::Rook => 530,
        Piece::Queen => 900,
        Piece::King => 0,
    }
}

/// Counts the pieces of one colour and kind.
pub fn count_pieces(board: &Board, color: Color, piece: Piece) -> (count: i32)
    ensures
        count == count_of(board_record(*board), color, piece),
        0 <= count <= 64,
{
    let squares = colored_pieces(board, color, piece);
    proof {
        lemma_squares_of(board_record(*board), color, piece);
    }
    squares.len() as i32
}

/// Counts the material by the opening's values.
pub fn eval_count_material_opening(board: &Board) -> (score: i32)
    ensures
        score == material_opening(board_record(*board)),
        -MATERIAL_LIMIT <= score <= MATERIAL_LIMIT,
{
    let white_bishops = count_pieces(board, Color::White, Piece::Bishop);
    let black_bishops = count_pieces(board, Color::Black, Piece::Bishop);
    let mut score: i32 = 0;
    score += count_pieces(board, Color::White, Piece::Pawn) * 80;
    score += count_pieces(board, Color::White, Piece::Knight) * 320;
    score += white_bishops * 330;
    score += count_pieces(board, Color::White, Piece::Rook) * 470;
    score += count_pieces(board, Color::White, Piece::Queen) * 900;
    score -= count_pieces(board, Color::Black, Piece::Pawn) * 80;
    score -= count_pieces(board, Color::Black, Piece::Knight) * 320;
    score -= black_bishops * 330;
    score -= count_pieces(board, Color::Black, Piece::Rook) * 470;
    score -= count_pieces(board, Color::Black, Piece::Queen) * 900;
    if white_bishops >= 2 {
        score += 50;
    }
    if black_bishops >= 2 {
        score -= 50;
    }
    score
}

/// Counts the material by the endgame's values.
pub fn eval_count_material_end(board: &Board) -> (score: i32)
    ensures
        score == material_end(board_record(*board)),
        -MATERIAL_LIMIT <= score <= MATERIAL_LIMIT,
{
    let white_bishops = count_pieces(board, Color::White, Piece::Bishop);
    let black_bishops = count_pieces(board, Color::Black, Piece::Bishop);
    let mut score: i32 = 0;
    score += count_pieces(board, Color::White, Piece::Pawn) * 100;
    score += count_pieces(board, Color::White, Piece::Knight) * 320;
    score += white_bishops * 330;
    score += count_pieces(board, Color::White, Piece::Rook) * 530;
    score += count_pieces(board, Color::White, Piece::Queen) * 900;
    score -= count_pieces(board, Color::Black, Piece::Pawn) * 100;
    score -= count_pieces(board, Color::Black, Piece::Knight) * 320;
    score -= black_bishops * 330;
    score -= count_pieces(board, Color::Black, Piece::Rook) * 530;
    score -= count_pieces(board, Color::Black, Piece::Queen) * 900;
    if white_bishops >= 2 {
        score += 100;
    }
    if black_bishops >= 2 {
        score -= 100;
    }
    score
}

} // verus!
