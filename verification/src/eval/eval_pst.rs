//! Piece-square tables: a bonus for each piece by the square it stands on.

use vstd::prelude::*;
use cozy_chess::Board;
use crate::board::{board_record, colored_pieces, squares_of, lemma_squares_of};
use crate::types::{Color, Piece};

verus! {

/// Square values of a pawn.
pub const PAWN_OPENING_PST: [i32; 64] = [
    0, 0, 0, 0, 0, 0, 0, 0,
    50, 50, 50, 50, 50, 50, 50, 50,
    10, 10, 20, 30, 30, 20, 10, 10,
    5, 5, 10, 25, 25, 10, 5, 5,
    0, 0, 0, 20, 20, 0, 0, 0,
    5, -5, -10, 0, 0, -10, -5, 5,
    5, 10, 10, -20, -20, 10, 10, 5,
    0, 0, 0, 0, 0, 0, 0, 0,
];

/// Square values of a knight.
pub const KNIGHT_OPENING_PST: [i32; 64] = [
    -50, -40, -30, -30, -30, -30, -40, -50,
    -40, -20, 0, 0, 0, 0, -20, -40,
    -30, 0, 10, 15, 15, 10, 0, -30,
    -30, 5, 15, 20, 20, 15, 5, -30,
    -30, 0, 15, 20, 20, 15, 0, -30,
    -30, 5, 10, 15, 15, 10, 5, -30,
    -40, -20, 0, 5, 5, 0, -20, -40,
    -50, -40, -30, -30, -30, -30, -40, -50,
];

/// Square values of a bishop.
pub const BISHOP_OPENING_PST: [i32; 64] = [
    -20, -10, -10, -10, -10, -10, -10, -20,
    -10, 0, 0, 0, 0, 0, 0, -10,
    -10, 0, 5, 10, 10, 5, 0, -10,
    -10, 5, 5, 10, 10, 5, 5, -10,
    -10, 0, 10, 10, 10, 10, 0, -10,
    -10, 10, 10, 10, 10, 10, 10, -10,
    -10, 5, 0, 0, 0, 0, 5, -10,
    -20, -10, -10, -10, -10, -10, -10, -20,
];

/// Square values of a rook.
pub const ROOK_OPENING_PST: [i32; 64] = [
    0, 0, 0, 0, 0, 0, 0, 0,
    5, 10, 10, 10, 10, 10, 10, 5,
    -5, 0, 0, 0, 0, 0, 0, -5,
    -5, 0, 0, 0, 0, 0, 0, -5,
    -5, 0, 0, 0, 0, 0, 0, -5,
    -5, 0, 0, 0, 0, 0, 0, -5,
    -5, 0, 0, 0, 0, 0, 0, -5,
    0, 0, 0, 5, 5, 0, 0, 0,
];

/// Square values of a queen.
pub const QUEEN_OPENING_PST: [i32; 64] = [
    -20, -10, -10, -5, -5, -10, -10, -20,
    -10, 0, 0, 0, 0, 0, 0, -10,
    -10, 0, 5, 5, 5, 5, 0, -10,
    -5, 0, 5, 5, 5, 5, 0, -5,
    0, 0, 5, 5, 5, 5, 0, -5,
    -10, 5, 5, 5, 5, 5, 0, -10,
    -10, 0, 5, 0, 0, 0, 0, -10,
    -20, -10, -10, -5, -5, -10, -10, -20,
];

/// Square values of a king while the board is full.
pub const KING_OPENING_PST: [i32; 64] = [
    -30, -40, -40, -50, -50, -40, -40, -30,
    -30, -40, -40, -50, -50, -40, -40, -30,
    -30, -40, -40, -50, -50, -40, -40, -30,
    -30, -40, -40, -50, -50, -40, -40, -30,
    -20, -30, -30, -40, -40, -30, -30, -20,
    -10, -20, -20, -20, -20, -20, -20, -10,
    20, 20, 0, 0, 0, 0, 20, 20,
    20, 30, 10, 0, 0, 10, 30, 20,
];

/// Square values of a king in the endgame.
pub const KING_END_PST: [i32; 64] = [
    -50, -40, -30, -20, -20, -30, -40, -50,
    -30, -20, -10, 0, 0, -10, -20, -30,
    -30, -10, 20, 30, 30, 20, -10, -30,
    -30, -10, 30, 40, 40, 30, -10, -30,
    -30, -10, 30, 40, 40, 30, -10, -30,
    -30, -10, 20, 30, 30, 20, -10, -30,
    -30, -30, 0, 0, 0, 0, -30, -30,
    -50, -30, -30, -30, -30, -30, -30, -50,
];

/// Largest magnitude of an entry of any table.
pub const PST_LIMIT: i32 = 50;

/// Whether every entry of a table lies within `PST_LIMIT` of zero.
pub open spec fn table_within_limit(table: Seq<i32>) -> bool {
    forall|i: int| 0 <= i < table.len() ==> -PST_LIMIT <= #[trigger] table[i] <= PST_LIMIT
}

/// The table index of a square: the square itself for White, and for Black
/// the square on the same file with the ranks counted from the other end
/// of the board.
pub open spec fn table_index(square: u8, color: Color) -> int {
    match color {
        Color::White => square as int,
        Color::Black => (7 - square / 8) * 8 + square % 8,
    }
}

/// Sum of the table entries of the first `upto` squares of a list.
pub open spec fn table_sum(squares: Seq<u8>, table: Seq<i32>, color: Color, upto: int) -> int
    decreases upto,
{
    if upto <= 0 {
        0
    } else {
        table_sum(squares, table, color, upto - 1) + table[table_index(squares[upto - 1], color)]
    }
}

/// Table sum of all pieces of one colour and kind on a board record.
pub open spec fn piece_table_sum(record: Seq<u16>, table: Seq<i32>, color: Color, piece: Piece) -> int {
    let squares = squares_of(record, color, piece);
    table_sum(squares, table, color, squares.len() as int)
}

/// White's table sum less Black's for one kind of piece.
pub open spec fn piece_table_balance(record: Seq<u16>, table: Seq<i32>, piece: Piece) -> int {
    piece_table_sum(record, table, Color::White, piece) - piece_table_sum(
        record,
        table,
        Color::Black,
        piece,
    )
}

/// The piece-square balance with the given king table.
pub open spec fn pst_balance(record: Seq<u16>, king_table: Seq<i32>) -> int {
    piece_table_balance(record, PAWN_OPENING_PST@, Piece::Pawn) + piece_table_balance(
        record,
        KNIGHT_OPENING_PST@,
        Piece::Knight,
    ) + piece_table_balance(record, BISHOP_OPENING_PST@, Piece::Bishop) + piece_table_balance(
        record,
        ROOK_OPENING_PST@,
        Piece::Rook,
    ) + piece_table_balance(record, QUEEN_OPENING_PST@, Piece::Queen) + piece_table_balance(
        record,
        king_table,
        Piece::King,
    )
}

/// The piece-square balance of the opening.
pub open spec fn pst_opening(record: Seq<u16>) -> int {
    pst_balance(record, KING_OPENING_PST@)
}

/// The piece-square balance of the endgame.
pub open spec fn pst_end(record: Seq<u16>) -> int {
    pst_balance(record, KING_END_PST@)
}

fn sum_table(squares: &Vec<u8>, table: &[i32; 64], color: Color) -> (sum: i32)
    requires
        squares@.len() <= 64,
        forall|i: int| 0 <= i < squares@.len() ==> squares@[i] < 64,
        table_within_limit(table@),
    ensures
        sum == table_sum(squares@, table@, color, squares@.len() as int),
        -50 * 64 <= sum <= 50 * 64,
{
    let mut sum: i32 = 0;
    let mut i: usize = 0;
    while i < squares.len()
        invariant
            i <= squares@.len() <= 64,
            forall|k: int| 0 <= k < squares@.len() ==> squares@[k] < 64,
            table_within_limit(table@),
            sum == table_sum(squares@, table@, color, i as int),
            -50 * i <= sum <= 50 * i,
        decreases squares@.len() - i,
    {
        let square: u8 = squares[i];
        let index: usize = match color {
            Color::White => square as usize,
            Color::Black => (7 - (square / 8) as usize) * 8 + (square % 8) as usize,
        };
        assert(-PST_LIMIT <= table@[index as int] <= PST_LIMIT);
        sum = sum + table[index];
        i = i + 1;
    }
    sum
}

fn piece_balance(board: &Board, table: &[i32; 64], piece: Piece) -> (balance: i32)
    requires
        table_within_limit(table@),
    ensures
        balance == piece_table_balance(board_record(*board), table@, piece),
        -50 * 128 <= balance <= 50 * 128,
{
    let white = colored_pieces(board, Color::White, piece);
    let black = colored_pieces(board, Color::Black, piece);
    proof {
        lemma_squares_of(board_record(*board), Color::White, piece);
        lemma_squares_of(board_record(*board), Color::Black, piece);
    }
    sum_table(&white, table, Color::White) - sum_table(&black, table, Color::Black)
}

fn balance_with_king(board: &Board, king_table: &[i32; 64]) -> (score: i32)
    requires
        table_within_limit(king_table@),
    ensures
        score == pst_balance(board_record(*board), king_table@),
        -50 * 768 <= score <= 50 * 768,
{
    let pawns = piece_balance(board, &PAWN_OPENING_PST, Piece::Pawn);
    let knights = piece_balance(board, &KNIGHT_OPENING_PST, Piece::Knight);
    let bishops = piece_balance(board, &BISHOP_OPENING_PST, Piece::Bishop);
    let rooks = piece_balance(board, &ROOK_OPENING_PST, Piece::Rook);
    let queens = piece_balance(board, &QUEEN_OPENING_PST, Piece::Queen);
    let kings = piece_balance(board, king_table, Piece::King);
    pawns + knights + bishops + rooks + queens + kings
}

/// Piece-square balance with the opening's king table.
pub fn eval_pst_opening(board: &Board) -> (score: i32)
    ensures
        score == pst_opening(board_record(*board)),
        -50 * 768 <= score <= 50 * 768,
{
    balance_with_king(board, &KING_OPENING_PST)
}

/// Piece-square balance with the endgame's king table.
pub fn eval_pst_end(board: &Board) -> (score: i32)
    ensures
        score == pst_end(board_record(*board)),
        -50 * 768 <= score <= 50 * 768,
{
    balance_with_king(board, &KING_END_PST)
}

} // verus!
