//! King distances for driving a lone king to the edge.

use vstd::prelude::*;
use cozy_chess::Board;
use crate::board::{board_record, colored_pieces, lemma_squares_of, side_of, side_to_move, squares_of};
use crate::types::{Color, Piece};

verus! {

/// Division that rounds toward zero, as machine integers divide.
pub open spec fn div_toward_zero(a: int, b: int) -> int
    recommends
        b > 0,
{
    if a >= 0 {
        a / b
    } else {
        -((-a) / b)
    }
}

/// The remainder that goes with `div_toward_zero`.
pub open spec fn rem_toward_zero(a: int, b: int) -> int
    recommends
        b > 0,
{
    a - b * div_toward_zero(a, b)
}

/// Absolute value.
pub open spec fn abs_int(a: int) -> int {
    if a >= 0 {
        a
    } else {
        -a
    }
}

/// Sum of the rank distance and the file distance between a square and the
/// centre square d4.
pub open spec fn center_distance(square: int) -> int {
    abs_int(div_toward_zero(square, 8) - 3) + abs_int(rem_toward_zero(square, 8) - 3)
}

/// Sum of the rank distance and the file distance between two squares.
pub open spec fn square_distance(a: int, b: int) -> int {
    abs_int(div_toward_zero(a, 8) - div_toward_zero(b, 8)) + abs_int(
        rem_toward_zero(a, 8) - rem_toward_zero(b, 8),
    )
}

/// The other side.
pub open spec fn opponent(color: Color) -> Color {
    match color {
        Color::White => Color::Black,
        Color::Black => Color::White,
    }
}

/// The square of a side's king: the lowest square that holds one, or a1 on
/// a record without.
pub open spec fn king_square(record: Seq<u16>, color: Color) -> int {
    let kings = squares_of(record, color, Piece::King);
    if kings.len() > 0 {
        kings[0] as int
    } else {
        0
    }
}

/// The mop-up score for the side to move: ten points for every step that
/// the enemy king stands from the centre and for every step that the two
/// kings stand closer than 14, less ten for every half-move from the root.
pub open spec fn mop_up_score(record: Seq<u16>, ply: int) -> int {
    let enemy = king_square(record, opponent(side_of(record)));
    let friend = king_square(record, side_of(record));
    (center_distance(enemy) + 14 - square_distance(enemy, friend) - ply) * 10
}

fn king_of(board: &Board, color: Color) -> (square: i32)
    ensures
        square == king_square(board_record(*board), color),
        0 <= square < 64,
{
    let kings = colored_pieces(board, color, Piece::King);
    proof {
        lemma_squares_of(board_record(*board), color, Piece::King);
    }
    if kings.len() > 0 {
        kings[0] as i32
    } else {
        0
    }
}

/// Scores how far the side to move has driven the enemy king to the edge.
pub fn eval_mop_up(board: &Board, distance_from_root: u8) -> (score: i32)
    ensures
        score == mop_up_score(board_record(*board), distance_from_root as int),
{
    let side = side_to_move(board);
    let other = match side {
        Color::White => Color::Black,
        Color::Black => Color::White,
    };
    let opponent_king_square = king_of(board, other);
    let friendly_king_square = king_of(board, side);
    let mut score: i32 = center_manhattan_distance(opponent_king_square);
    let king_distance = manhattan_distance(opponent_king_square, friendly_king_square);
    score += 14 - king_distance;
    score -= distance_from_root as i32;
    score * 10
}

/// The distance of a square from the centre, by ranks and files.
pub fn center_manhattan_distance(square: i32) -> (d: i32)
    ensures
        d == center_distance(square as int),
{
    let rank: i32 = square / 8;
    let file: i32 = square % 8;
    let dr: i32 = if rank >= 3 { rank - 3 } else { 3 - rank };
    let df: i32 = if file >= 3 { file - 3 } else { 3 - file };
    dr + df
}

/// The distance between two squares, by ranks and files.
pub fn manhattan_distance(square1: i32, square2: i32) -> (d: i32)
    ensures
        d == square_distance(square1 as int, square2 as int),
{
    let rank1: i32 = square1 / 8;
    let file1: i32 = square1 % 8;
    let rank2: i32 = square2 / 8;
    let file2: i32 = square2 % 8;
    let dr: i32 = if rank1 >= rank2 { rank1 - rank2 } else { rank2 - rank1 };
    let df: i32 = if file1 >= file2 { file1 - file2 } else { file2 - file1 };
    dr + df
}

} // verus!
