//! The evaluator sees both sides alike: a position with the ranks
//! mirrored, the colours swapped and the other side to move scores the
//! negative of what it scored.

use vstd::prelude::*;
use crate::board::{side_of, square_code, squares_holding, squares_of, status_of};
use crate::eval::eval_count_material::{count_of, material_end, material_opening};
use crate::eval::eval::{blended_score, endgame_score, eval_score, opening_score};
use crate::eval::eval_pawn_structure::{
    count_in_box,
    in_box,
    pawn_score,
    pawn_scores,
    pawn_structure,
    pawns_in_box,
};
use crate::eval::eval_pst::{
    piece_table_balance,
    piece_table_sum,
    pst_balance,
    table_sum,
};
use crate::eval::game_phase::game_phase;
use crate::types::{Color, Piece};

verus! {

/// The number that stands for the same piece of the other colour.
pub open spec fn swapped(code: u16) -> u16 {
    if 1 <= code <= 6 {
        (code + 6) as u16
    } else if 7 <= code <= 12 {
        (code - 6) as u16
    } else {
        code
    }
}

/// The other colour.
pub open spec fn other(color: Color) -> Color {
    match color {
        Color::White => Color::Black,
        Color::Black => Color::White,
    }
}

/// The square on the same file with the ranks counted from the other end
/// of the board.
pub open spec fn flipped(square: int) -> int {
    (7 - square / 8) * 8 + square % 8
}

/// Whether `b` is `a` seen from the other side: the ranks mirrored, the
/// colours swapped, and the other side to move.
pub open spec fn mirrored(a: Seq<u16>, b: Seq<u16>) -> bool {
    &&& forall|i: int| 0 <= i < 64 ==> #[trigger] b[i] == swapped(a[flipped(i)])
    &&& side_of(b) == other(side_of(a))
}

/// The square that a weight is asked about: the square itself, or the
/// square seen from the other end of the board.
pub open spec fn seen(square: int, turned: bool) -> int {
    if turned {
        flipped(square)
    } else {
        square
    }
}

/// The sum of a weight over the squares below `upto` on which a record has
/// `code`.
pub open spec fn weighed(
    record: Seq<u16>,
    code: u16,
    weight: spec_fn(int) -> int,
    turned: bool,
    upto: int,
) -> int
    decreases upto,
{
    if upto <= 0 {
        0
    } else {
        weighed(record, code, weight, turned, upto - 1) + if record[upto - 1] == code {
            weight(seen(upto - 1, turned))
        } else {
            0
        }
    }
}

/// The sum of a weight over the squares of a rank that lie on the files
/// below `upto` and on which a record has `code`.
pub open spec fn rank_weighed(
    record: Seq<u16>,
    code: u16,
    weight: spec_fn(int) -> int,
    turned: bool,
    rank: int,
    upto: int,
) -> int
    decreases upto,
{
    if upto <= 0 {
        0
    } else {
        rank_weighed(record, code, weight, turned, rank, upto - 1) + if record[rank * 8 + upto - 1]
            == code {
            weight(seen(rank * 8 + upto - 1, turned))
        } else {
            0
        }
    }
}

/// The sum of the rank sums of the ranks below `upto`.
pub open spec fn ranks_weighed(
    record: Seq<u16>,
    code: u16,
    weight: spec_fn(int) -> int,
    turned: bool,
    upto: int,
) -> int
    decreases upto,
{
    if upto <= 0 {
        0
    } else {
        ranks_weighed(record, code, weight, turned, upto - 1) + rank_weighed(
            record,
            code,
            weight,
            turned,
            upto - 1,
            8,
        )
    }
}

/// The sum of the rank sums of the ranks from `from` up to the eighth.
pub open spec fn ranks_weighed_from(
    record: Seq<u16>,
    code: u16,
    weight: spec_fn(int) -> int,
    turned: bool,
    from: int,
) -> int
    decreases 8 - from,
{
    if from >= 8 {
        0
    } else {
        ranks_weighed_from(record, code, weight, turned, from + 1) + rank_weighed(
            record,
            code,
            weight,
            turned,
            from,
            8,
        )
    }
}

/// The sum of a weight over the first `upto` squares of a list.
pub open spec fn total(squares: Seq<u8>, weight: spec_fn(int) -> int, turned: bool, upto: int) -> int
    decreases upto,
{
    if upto <= 0 {
        0
    } else {
        total(squares, weight, turned, upto - 1) + weight(seen(squares[upto - 1] as int, turned))
    }
}

/// A total looks only at the squares below `upto`.
pub proof fn lemma_total_prefix(a: Seq<u8>, b: Seq<u8>, weight: spec_fn(int) -> int, turned: bool, upto: int)
    requires
        upto <= a.len(),
        upto <= b.len(),
        forall|i: int| 0 <= i < upto ==> a[i] == b[i],
    ensures
        total(a, weight, turned, upto) == total(b, weight, turned, upto),
    decreases upto,
{
    if upto > 0 {
        lemma_total_prefix(a, b, weight, turned, upto - 1);
    }
}

/// The total over the list of the squares that hold a code is the sum over
/// the squares of the record.
pub proof fn lemma_total_of_squares(
    record: Seq<u16>,
    code: u16,
    weight: spec_fn(int) -> int,
    turned: bool,
    upto: int,
)
    requires
        0 <= upto <= 256,
    ensures
        total(
            squares_holding(record, code, upto),
            weight,
            turned,
            squares_holding(record, code, upto).len() as int,
        ) == weighed(record, code, weight, turned, upto),
    decreases upto,
{
    if upto > 0 {
        lemma_total_of_squares(record, code, weight, turned, upto - 1);
        let rest = squares_holding(record, code, upto - 1);
        if record[upto - 1] == code {
            let list = rest.push((upto - 1) as u8);
            lemma_total_prefix(list, rest, weight, turned, rest.len() as int);
        }
    }
}

/// The sum over the squares below a square is the sum of the ranks below
/// its rank and of its rank up to its file.
pub proof fn lemma_weighed_by_ranks(
    record: Seq<u16>,
    code: u16,
    weight: spec_fn(int) -> int,
    turned: bool,
    rank: int,
    file: int,
)
    requires
        0 <= rank <= 8,
        0 <= file <= 8,
    ensures
        weighed(record, code, weight, turned, rank * 8 + file) == ranks_weighed(
            record,
            code,
            weight,
            turned,
            rank,
        ) + rank_weighed(record, code, weight, turned, rank, file),
    decreases rank, file,
{
    if file > 0 {
        lemma_weighed_by_ranks(record, code, weight, turned, rank, file - 1);
    } else if rank > 0 {
        lemma_weighed_by_ranks(record, code, weight, turned, rank - 1, 8);
        assert((rank - 1) * 8 + 8 == rank * 8 + 0);
    }
}

/// The ranks below a rank and the ranks from it on make the board.
pub proof fn lemma_ranks_split(
    record: Seq<u16>,
    code: u16,
    weight: spec_fn(int) -> int,
    turned: bool,
    at: int,
)
    requires
        0 <= at <= 8,
    ensures
        ranks_weighed(record, code, weight, turned, at) + ranks_weighed_from(
            record,
            code,
            weight,
            turned,
            at,
        ) == ranks_weighed(record, code, weight, turned, 8),
    decreases 8 - at,
{
    if at < 8 {
        lemma_ranks_split(record, code, weight, turned, at + 1);
    }
}

/// The file and the rank of a square seen from the other end of the board.
pub proof fn lemma_flipped_square(square: int)
    requires
        0 <= square < 64,
    ensures
        0 <= flipped(square) < 64,
        flipped(flipped(square)) == square,
        flipped(square) % 8 == square % 8,
        flipped(square) / 8 == 7 - square / 8,
        ((flipped(square)) as u8) % 8 == (square as u8) % 8,
        ((flipped(square)) as u8) / 8 == 7 - (square as u8) / 8,
{
}

/// A rank of a mirrored record sums to what the rank across the board sums
/// to on the record itself, with the other colour's code and each square
/// seen from the other end.
pub proof fn lemma_rank_mirrored(
    a: Seq<u16>,
    b: Seq<u16>,
    code: u16,
    weight: spec_fn(int) -> int,
    turned: bool,
    rank: int,
    upto: int,
)
    requires
        mirrored(a, b),
        1 <= code <= 12,
        0 <= rank < 8,
        0 <= upto <= 8,
    ensures
        rank_weighed(b, swapped(code), weight, turned, rank, upto) == rank_weighed(
            a,
            code,
            weight,
            !turned,
            7 - rank,
            upto,
        ),
    decreases upto,
{
    if upto > 0 {
        lemma_rank_mirrored(a, b, code, weight, turned, rank, upto - 1);
        let here = rank * 8 + upto - 1;
        let there = (7 - rank) * 8 + upto - 1;
        lemma_flipped_square(here);
        lemma_flipped_square(there);
        assert(flipped(here) == there);
        assert(b[here] == swapped(a[flipped(here)]));
        assert(seen(here, turned) == seen(there, !turned));
    }
}

/// The ranks below a rank of a mirrored record sum to what the ranks from
/// the rank across the board on sum to on the record itself.
pub proof fn lemma_ranks_mirrored(
    a: Seq<u16>,
    b: Seq<u16>,
    code: u16,
    weight: spec_fn(int) -> int,
    turned: bool,
    upto: int,
)
    requires
        mirrored(a, b),
        1 <= code <= 12,
        0 <= upto <= 8,
    ensures
        ranks_weighed(b, swapped(code), weight, turned, upto) == ranks_weighed_from(
            a,
            code,
            weight,
            !turned,
            8 - upto,
        ),
    decreases upto,
{
    if upto > 0 {
        lemma_ranks_mirrored(a, b, code, weight, turned, upto - 1);
        lemma_rank_mirrored(a, b, code, weight, turned, upto - 1, 8);
    }
}

/// Summing over a mirrored record is summing over the record itself with
/// the other colour's code, each square seen from the other end.
pub proof fn lemma_weighed_board_mirrored(
    a: Seq<u16>,
    b: Seq<u16>,
    code: u16,
    weight: spec_fn(int) -> int,
    turned: bool,
)
    requires
        mirrored(a, b),
        1 <= code <= 12,
    ensures
        weighed(b, swapped(code), weight, turned, 64) == weighed(a, code, weight, !turned, 64),
{
    lemma_weighed_by_ranks(b, swapped(code), weight, turned, 8, 0);
    lemma_weighed_by_ranks(a, code, weight, !turned, 8, 0);
    lemma_ranks_mirrored(a, b, code, weight, turned, 8);
    lemma_ranks_split(a, code, weight, !turned, 0);
}

/// The weight that counts.
pub open spec fn unit_weight() -> spec_fn(int) -> int {
    |square: int| 1int
}

/// The number of squares of a list is the total of the weight that counts.
pub proof fn lemma_total_counts(squares: Seq<u8>, turned: bool, upto: int)
    requires
        0 <= upto,
    ensures
        total(squares, unit_weight(), turned, upto) == upto,
    decreases upto,
{
    if upto > 0 {
        lemma_total_counts(squares, turned, upto - 1);
    }
}

/// A mirrored record holds as many pieces of a colour and kind as the
/// record itself holds of the other colour and the same kind.
pub proof fn lemma_count_mirrored(a: Seq<u16>, b: Seq<u16>, color: Color, piece: Piece)
    requires
        mirrored(a, b),
    ensures
        count_of(b, color, piece) == count_of(a, other(color), piece),
{
    let code_b = square_code(color, piece);
    let code_a = square_code(other(color), piece);
    assert(swapped(code_a) == code_b);
    let list_b = squares_of(b, color, piece);
    let list_a = squares_of(a, other(color), piece);
    lemma_total_counts(list_b, false, list_b.len() as int);
    lemma_total_counts(list_a, true, list_a.len() as int);
    lemma_total_of_squares(b, code_b, unit_weight(), false, 64);
    lemma_total_of_squares(a, code_a, unit_weight(), true, 64);
    lemma_weighed_board_mirrored(a, b, code_a, unit_weight(), false);
}

/// The material balance and the game phase of a mirrored record: the
/// balance is the negative, the phase the same.
pub proof fn lemma_material_mirrored(a: Seq<u16>, b: Seq<u16>)
    requires
        mirrored(a, b),
    ensures
        material_opening(b) == -material_opening(a),
        material_end(b) == -material_end(a),
        game_phase(b) == game_phase(a),
{
    lemma_count_mirrored(a, b, Color::White, Piece::Pawn);
    lemma_count_mirrored(a, b, Color::Black, Piece::Pawn);
    lemma_count_mirrored(a, b, Color::White, Piece::Knight);
    lemma_count_mirrored(a, b, Color::Black, Piece::Knight);
    lemma_count_mirrored(a, b, Color::White, Piece::Bishop);
    lemma_count_mirrored(a, b, Color::Black, Piece::Bishop);
    lemma_count_mirrored(a, b, Color::White, Piece::Rook);
    lemma_count_mirrored(a, b, Color::Black, Piece::Rook);
    lemma_count_mirrored(a, b, Color::White, Piece::Queen);
    lemma_count_mirrored(a, b, Color::Black, Piece::Queen);
}

/// Sums of weights that agree square by square agree.
pub proof fn lemma_weighed_same(
    record: Seq<u16>,
    code: u16,
    first: spec_fn(int) -> int,
    first_turned: bool,
    second: spec_fn(int) -> int,
    second_turned: bool,
    upto: int,
)
    requires
        upto <= 64,
        forall|i: int|
            0 <= i < 64 ==> first(seen(i, first_turned)) == second(#[trigger] seen(i, second_turned)),
    ensures
        weighed(record, code, first, first_turned, upto) == weighed(
            record,
            code,
            second,
            second_turned,
            upto,
        ),
    decreases upto,
{
    if upto > 0 {
        lemma_weighed_same(record, code, first, first_turned, second, second_turned, upto - 1);
        assert(first(seen(upto - 1, first_turned)) == second(seen(upto - 1, second_turned)));
    }
}

/// The weight of a square by a table.
pub open spec fn table_weight(table: Seq<i32>) -> spec_fn(int) -> int {
    |square: int| table[square] as int
}

/// A table sum is the total of the table's weight, each square seen from
/// its own side.
pub proof fn lemma_table_sum_is_total(squares: Seq<u8>, table: Seq<i32>, color: Color, upto: int)
    ensures
        table_sum(squares, table, color, upto) == total(
            squares,
            table_weight(table),
            color == Color::Black,
            upto,
        ),
    decreases upto,
{
    if upto > 0 {
        lemma_table_sum_is_total(squares, table, color, upto - 1);
    }
}

/// The table sum of a colour and kind on a mirrored record is that of the
/// other colour on the record itself.
pub proof fn lemma_table_sum_mirrored(a: Seq<u16>, b: Seq<u16>, table: Seq<i32>, color: Color, piece: Piece)
    requires
        mirrored(a, b),
    ensures
        piece_table_sum(b, table, color, piece) == piece_table_sum(a, table, other(color), piece),
{
    let code_b = square_code(color, piece);
    let code_a = square_code(other(color), piece);
    assert(swapped(code_a) == code_b);
    let list_b = squares_of(b, color, piece);
    let list_a = squares_of(a, other(color), piece);
    let turned = color == Color::Black;
    lemma_table_sum_is_total(list_b, table, color, list_b.len() as int);
    lemma_table_sum_is_total(list_a, table, other(color), list_a.len() as int);
    lemma_total_of_squares(b, code_b, table_weight(table), turned, 64);
    lemma_total_of_squares(a, code_a, table_weight(table), !turned, 64);
    lemma_weighed_board_mirrored(a, b, code_a, table_weight(table), turned);
}

/// The piece-square balance of a mirrored record is the negative.
pub proof fn lemma_pst_mirrored(a: Seq<u16>, b: Seq<u16>, king_table: Seq<i32>)
    requires
        mirrored(a, b),
    ensures
        pst_balance(b, king_table) == -pst_balance(a, king_table),
{
    lemma_tables_mirrored(a, b, crate::eval::eval_pst::PAWN_OPENING_PST@, Piece::Pawn);
    lemma_tables_mirrored(a, b, crate::eval::eval_pst::KNIGHT_OPENING_PST@, Piece::Knight);
    lemma_tables_mirrored(a, b, crate::eval::eval_pst::BISHOP_OPENING_PST@, Piece::Bishop);
    lemma_tables_mirrored(a, b, crate::eval::eval_pst::ROOK_OPENING_PST@, Piece::Rook);
    lemma_tables_mirrored(a, b, crate::eval::eval_pst::QUEEN_OPENING_PST@, Piece::Queen);
    lemma_tables_mirrored(a, b, king_table, Piece::King);
}

/// The table balance of one kind of piece on a mirrored record is the
/// negative.
pub proof fn lemma_tables_mirrored(a: Seq<u16>, b: Seq<u16>, table: Seq<i32>, piece: Piece)
    requires
        mirrored(a, b),
    ensures
        piece_table_balance(b, table, piece) == -piece_table_balance(a, table, piece),
{
    lemma_table_sum_mirrored(a, b, table, Color::White, piece);
    lemma_table_sum_mirrored(a, b, table, Color::Black, piece);
}

/// The weight that counts the squares in a box of files and ranks.
pub open spec fn box_weight(lo_file: int, hi_file: int, lo_rank: int, hi_rank: int) -> spec_fn(int) -> int {
    |square: int|
        if in_box(square as u8, lo_file, hi_file, lo_rank, hi_rank) {
            1int
        } else {
            0int
        }
}

/// A count in a box is the total of the box's weight.
pub proof fn lemma_count_in_box_is_total(
    squares: Seq<u8>,
    lo_file: int,
    hi_file: int,
    lo_rank: int,
    hi_rank: int,
    upto: int,
)
    ensures
        count_in_box(squares, lo_file, hi_file, lo_rank, hi_rank, upto) == total(
            squares,
            box_weight(lo_file, hi_file, lo_rank, hi_rank),
            false,
            upto,
        ),
    decreases upto,
{
    if upto > 0 {
        lemma_count_in_box_is_total(squares, lo_file, hi_file, lo_rank, hi_rank, upto - 1);
    }
}

/// The pawns of a colour in a box on a mirrored record are as many as the
/// pawns of the other colour on the record itself in the box on the same
/// files with the ranks mirrored.
pub proof fn lemma_box_mirrored(
    a: Seq<u16>,
    b: Seq<u16>,
    color: Color,
    lo_file: int,
    hi_file: int,
    lo_rank: int,
    hi_rank: int,
)
    requires
        mirrored(a, b),
    ensures
        pawns_in_box(squares_of(b, color, Piece::Pawn), lo_file, hi_file, lo_rank, hi_rank)
            == pawns_in_box(
            squares_of(a, other(color), Piece::Pawn),
            lo_file,
            hi_file,
            7 - hi_rank,
            7 - lo_rank,
        ),
{
    let code_b = square_code(color, Piece::Pawn);
    let code_a = square_code(other(color), Piece::Pawn);
    assert(swapped(code_a) == code_b);
    let list_b = squares_of(b, color, Piece::Pawn);
    let list_a = squares_of(a, other(color), Piece::Pawn);
    let here = box_weight(lo_file, hi_file, lo_rank, hi_rank);
    let there = box_weight(lo_file, hi_file, 7 - hi_rank, 7 - lo_rank);
    lemma_count_in_box_is_total(list_b, lo_file, hi_file, lo_rank, hi_rank, list_b.len() as int);
    lemma_count_in_box_is_total(
        list_a,
        lo_file,
        hi_file,
        7 - hi_rank,
        7 - lo_rank,
        list_a.len() as int,
    );
    lemma_total_of_squares(b, code_b, here, false, 64);
    lemma_total_of_squares(a, code_a, there, false, 64);
    lemma_weighed_board_mirrored(a, b, code_a, here, false);
    assert forall|i: int| 0 <= i < 64 implies here(seen(i, true)) == there(#[trigger] seen(i, false)) by {
        lemma_flipped_square(i);
    }
    lemma_weighed_same(a, code_a, here, true, there, false, 64);
}

/// The weight of a pawn by its structure.
pub open spec fn pawn_weight(own: Seq<u8>, enemy: Seq<u8>, color: Color) -> spec_fn(int) -> int {
    |square: int| pawn_score(square as u8, own, enemy, color)
}

/// The sum of the pawn scores is the total of the pawns' weight.
pub proof fn lemma_pawn_scores_is_total(own: Seq<u8>, enemy: Seq<u8>, color: Color, upto: int)
    ensures
        pawn_scores(own, enemy, color, upto) == total(own, pawn_weight(own, enemy, color), false, upto),
    decreases upto,
{
    if upto > 0 {
        lemma_pawn_scores_is_total(own, enemy, color, upto - 1);
    }
}

/// A pawn on a mirrored record is worth what the pawn in its place is worth
/// on the record itself.
pub proof fn lemma_pawn_score_mirrored(a: Seq<u16>, b: Seq<u16>, color: Color, square: int)
    requires
        mirrored(a, b),
        0 <= square < 64,
    ensures
        pawn_score(
            flipped(square) as u8,
            squares_of(b, other(color), Piece::Pawn),
            squares_of(b, color, Piece::Pawn),
            other(color),
        ) == pawn_score(
            square as u8,
            squares_of(a, color, Piece::Pawn),
            squares_of(a, other(color), Piece::Pawn),
            color,
        ),
{
    lemma_flipped_square(square);
    let file = (square as u8) % 8;
    let rank = (square as u8) / 8;
    let far_rank = 7 - rank;
    lemma_box_mirrored(a, b, other(color), file as int, file as int, 0, 7);
    lemma_box_mirrored(a, b, other(color), file - 1, file - 1, 0, 7);
    lemma_box_mirrored(a, b, other(color), file + 1, file + 1, 0, 7);
    lemma_box_mirrored(a, b, color, file - 1, file + 1, far_rank + 1, 7);
    lemma_box_mirrored(a, b, color, file - 1, file + 1, 0, far_rank - 1);
}

/// The pawn scores of a colour on a mirrored record come to what those of
/// the other colour come to on the record itself.
pub proof fn lemma_pawn_scores_mirrored(a: Seq<u16>, b: Seq<u16>, color: Color)
    requires
        mirrored(a, b),
    ensures
        ({
            let own_b = squares_of(b, other(color), Piece::Pawn);
            let own_a = squares_of(a, color, Piece::Pawn);
            pawn_scores(own_b, squares_of(b, color, Piece::Pawn), other(color), own_b.len() as int)
                == pawn_scores(
                own_a,
                squares_of(a, other(color), Piece::Pawn),
                color,
                own_a.len() as int,
            )
        }),
{
    let own_b = squares_of(b, other(color), Piece::Pawn);
    let enemy_b = squares_of(b, color, Piece::Pawn);
    let own_a = squares_of(a, color, Piece::Pawn);
    let enemy_a = squares_of(a, other(color), Piece::Pawn);
    let code_b = square_code(other(color), Piece::Pawn);
    let code_a = square_code(color, Piece::Pawn);
    assert(swapped(code_a) == code_b);
    let here = pawn_weight(own_b, enemy_b, other(color));
    let there = pawn_weight(own_a, enemy_a, color);
    lemma_pawn_scores_is_total(own_b, enemy_b, other(color), own_b.len() as int);
    lemma_pawn_scores_is_total(own_a, enemy_a, color, own_a.len() as int);
    lemma_total_of_squares(b, code_b, here, false, 64);
    lemma_total_of_squares(a, code_a, there, false, 64);
    lemma_weighed_board_mirrored(a, b, code_a, here, false);
    assert forall|i: int| 0 <= i < 64 implies here(seen(i, true)) == there(#[trigger] seen(i, false)) by {
        lemma_pawn_score_mirrored(a, b, color, i);
    }
    lemma_weighed_same(a, code_a, here, true, there, false, 64);
}

/// The pawn structure of a mirrored record is the negative.
pub proof fn lemma_pawn_structure_mirrored(a: Seq<u16>, b: Seq<u16>)
    requires
        mirrored(a, b),
    ensures
        pawn_structure(b) == -pawn_structure(a),
{
    lemma_pawn_scores_mirrored(a, b, Color::White);
    lemma_pawn_scores_mirrored(a, b, Color::Black);
}

/// The evaluator sees both sides alike: while the game goes on, the static
/// score of a position with the ranks mirrored, the colours swapped and the
/// other side to move is the negative of the position's own.
pub proof fn lemma_score_mirrored(a: Seq<u16>, b: Seq<u16>)
    requires
        mirrored(a, b),
    ensures
        opening_score(b) == -opening_score(a),
        endgame_score(b) == -endgame_score(a),
        blended_score(b) == -blended_score(a),
{
    lemma_material_mirrored(a, b);
    lemma_pst_mirrored(a, b, crate::eval::eval_pst::KING_OPENING_PST@);
    lemma_pst_mirrored(a, b, crate::eval::eval_pst::KING_END_PST@);
    lemma_pawn_structure_mirrored(a, b);
    let phase = game_phase(a);
    let opening = opening_score(a);
    let endgame = endgame_score(a);
    assert((-opening) * (256 - phase) + (-endgame) * phase == -(opening * (256 - phase) + endgame
        * phase)) by (nonlinear_arith);
}

/// The score of a position seen from the other side, finished games
/// included: where the game stands alike in both, over or going on, the
/// one scores the negative of the other at the same distance from the
/// root. That the game stands alike in both is the move generator's to
/// say, not this library's.
pub proof fn lemma_eval_mirrored(a: Seq<u16>, b: Seq<u16>, ply: int)
    requires
        mirrored(a, b),
        status_of(b) == status_of(a),
    ensures
        eval_score(b, ply) == -eval_score(a, ply),
{
    lemma_score_mirrored(a, b);
}

} // verus!
