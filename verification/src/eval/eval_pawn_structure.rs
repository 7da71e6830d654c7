//! Pawn structure: doubled, isolated and passed pawns.

use vstd::prelude::*;
use cozy_chess::Board;
use crate::board::{board_record, colored_pieces, lemma_squares_of, squares_of};
use crate::types::{Color, Piece};

verus! {

/// What a pawn loses for each further pawn of its side on its file.
pub const STACKED_PAWN_PENALTY: i32 = 25;

/// What a pawn loses for having no pawn of its side on a neighbouring file.
pub const ISOLATED_PAWN_PENALTY: i32 = 50;

/// What a pawn gains for having no enemy pawn ahead of it.
pub const PASSED_PAWN_BONUS: i32 = 175;

/// What a passed pawn gains for each rank it has advanced.
pub const PASSED_PAWN_RANK_BONUS: i32 = 25;

/// Largest magnitude of a pawn-structure balance.
pub const PAWN_STRUCTURE_LIMIT: i32 = 220_000;

/// Whether a square lies on one of the files `lo_file..=hi_file` and on one
/// of the ranks `lo_rank..=hi_rank`.
pub open spec fn in_box(square: u8, lo_file: int, hi_file: int, lo_rank: int, hi_rank: int) -> bool {
    lo_file <= square % 8 <= hi_file && lo_rank <= square / 8 <= hi_rank
}

/// How many of the first `upto` squares of a list lie in a box of files and ranks.
pub open spec fn count_in_box(
    squares: Seq<u8>,
    lo_file: int,
    hi_file: int,
    lo_rank: int,
    hi_rank: int,
    upto: int,
) -> int
    decreases upto,
{
    if upto <= 0 {
        0
    } else {
        count_in_box(squares, lo_file, hi_file, lo_rank, hi_rank, upto - 1) + if in_box(
            squares[upto - 1],
            lo_file,
            hi_file,
            lo_rank,
            hi_rank,
        ) {
            1int
        } else {
            0int
        }
    }
}

/// How many squares of a list lie in a box of files and ranks.
pub open spec fn pawns_in_box(squares: Seq<u8>, lo_file: int, hi_file: int, lo_rank: int, hi_rank: int) -> int {
    count_in_box(squares, lo_file, hi_file, lo_rank, hi_rank, squares.len() as int)
}

/// What one pawn is worth by its structure, seen from its own side: a bonus
/// if no enemy pawn stands ahead of it on its own or a neighbouring file,
/// growing with each rank it has advanced; a penalty for each further pawn of
/// its side on its file; a penalty if no pawn of its side stands on a
/// neighbouring file.
pub open spec fn pawn_score(square: u8, own: Seq<u8>, other: Seq<u8>, color: Color) -> int {
    let file = square % 8;
    let rank = square / 8;
    let on_file = pawns_in_box(own, file as int, file as int, 0, 7);
    let beside = pawns_in_box(own, file - 1, file - 1, 0, 7) + pawns_in_box(
        own,
        file + 1,
        file + 1,
        0,
        7,
    );
    let ahead = match color {
        Color::White => pawns_in_box(other, file - 1, file + 1, rank + 1, 7),
        Color::Black => pawns_in_box(other, file - 1, file + 1, 0, rank - 1),
    };
    let advanced = match color {
        Color::White => rank as int,
        Color::Black => 7 - rank,
    };
    (if ahead == 0 {
        175 + advanced * 25
    } else {
        0
    }) - (if on_file > 1 {
        (on_file - 1) * 25
    } else {
        0
    }) - (if beside == 0 {
        50int
    } else {
        0int
    })
}

/// Sum of the structure scores of the first `upto` pawns of a side.
pub open spec fn pawn_scores(own: Seq<u8>, other: Seq<u8>, color: Color, upto: int) -> int
    decreases upto,
{
    if upto <= 0 {
        0
    } else {
        pawn_scores(own, other, color, upto - 1) + pawn_score(own[upto - 1], own, other, color)
    }
}

/// The pawn-structure balance: White's pawns' scores less Black's.
pub open spec fn pawn_structure(record: Seq<u16>) -> int {
    let white = squares_of(record, Color::White, Piece::Pawn);
    let black = squares_of(record, Color::Black, Piece::Pawn);
    pawn_scores(white, black, Color::White, white.len() as int) - pawn_scores(
        black,
        white,
        Color::Black,
        black.len() as int,
    )
}

fn count_pawns_in(squares: &Vec<u8>, lo_file: i32, hi_file: i32, lo_rank: i32, hi_rank: i32) -> (count: i32)
    requires
        squares@.len() <= 64,
    ensures
        count == pawns_in_box(squares@, lo_file as int, hi_file as int, lo_rank as int, hi_rank as int),
        0 <= count <= squares@.len(),
{
    let mut count: i32 = 0;
    let mut i: usize = 0;
    while i < squares.len()
        invariant
            i <= squares@.len() <= 64,
            0 <= count <= i,
            count == count_in_box(
                squares@,
                lo_file as int,
                hi_file as int,
                lo_rank as int,
                hi_rank as int,
                i as int,
            ),
        decreases squares@.len() - i,
    {
        let square: u8 = squares[i];
        let file: i32 = (square % 8) as i32;
        let rank: i32 = (square / 8) as i32;
        if lo_file <= file && file <= hi_file && lo_rank <= rank && rank <= hi_rank {
            count = count + 1;
        }
        i = i + 1;
    }
    count
}

fn score_pawn(square: u8, own: &Vec<u8>, other: &Vec<u8>, color: Color) -> (score: i32)
    requires
        square < 64,
        own@.len() <= 64,
        other@.len() <= 64,
    ensures
        score == pawn_score(square, own@, other@, color),
        -1700 <= score <= 1700,
{
    let file: i32 = (square % 8) as i32;
    let rank: i32 = (square / 8) as i32;
    let on_file = count_pawns_in(own, file, file, 0, 7);
    let beside = count_pawns_in(own, file - 1, file - 1, 0, 7) + count_pawns_in(
        own,
        file + 1,
        file + 1,
        0,
        7,
    );
    let ahead = match color {
        Color::White => count_pawns_in(other, file - 1, file + 1, rank + 1, 7),
        Color::Black => count_pawns_in(other, file - 1, file + 1, 0, rank - 1),
    };
    let advanced: i32 = match color {
        Color::White => rank,
        Color::Black => 7 - rank,
    };
    let mut score: i32 = 0;
    if on_file > 1 {
        score -= (on_file - 1) * STACKED_PAWN_PENALTY;
    }
    if beside == 0 {
        score -= ISOLATED_PAWN_PENALTY;
    }
    if ahead == 0 {
        score += PASSED_PAWN_BONUS;
        score += advanced * PASSED_PAWN_RANK_BONUS;
    }
    score
}

fn score_pawns(own: &Vec<u8>, other: &Vec<u8>, color: Color) -> (score: i32)
    requires
        forall|k: int| 0 <= k < own@.len() ==> own@[k] < 64,
        own@.len() <= 64,
        other@.len() <= 64,
    ensures
        score == pawn_scores(own@, other@, color, own@.len() as int),
        -1700 * 64 <= score <= 1700 * 64,
{
    let mut score: i32 = 0;
    let mut i: usize = 0;
    while i < own.len()
        invariant
            i <= own@.len() <= 64,
            forall|k: int| 0 <= k < own@.len() ==> own@[k] < 64,
            other@.len() <= 64,
            score == pawn_scores(own@, other@, color, i as int),
            -1700 * i <= score <= 1700 * i,
        decreases own@.len() - i,
    {
        let one = score_pawn(own[i], own, other, color);
        score = score + one;
        i = i + 1;
    }
    score
}

/// Scores the pawn structure of both sides.
pub fn eval_pawn_structure(board: &Board) -> (score: i32)
    ensures
        score == pawn_structure(board_record(*board)),
        -PAWN_STRUCTURE_LIMIT <= score <= PAWN_STRUCTURE_LIMIT,
{
    let white = colored_pieces(board, Color::White, Piece::Pawn);
    let black = colored_pieces(board, Color::Black, Piece::Pawn);
    proof {
        lemma_squares_of(board_record(*board), Color::White, Piece::Pawn);
        lemma_squares_of(board_record(*board), Color::Black, Piece::Pawn);
    }
    score_pawns(&white, &black, Color::White) - score_pawns(&black, &white, Color::Black)
}

} // verus!
