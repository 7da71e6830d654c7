//! Move ordering: the moves most likely to cut the search short go first.

use vstd::prelude::*;
use cozy_chess::Board;
use crate::board::{
    board_record,
    checking_pieces,
    code_piece,
    colored_pieces,
    lemma_squares_holding_contains,
    piece_on,
    play,
    record_after,
    record_checks,
    record_moves,
    side_of,
    side_to_move,
    square_code,
};
use crate::eval::eval_mop_up::opponent;
use crate::eval::eval_count_material::{get_piece_value_opening, piece_value_opening};
use crate::types::{Color, Move, Piece};

verus! {

/// What a killer move gains in the ordering.
pub const KILLER_BONUS: i32 = 1_000_000;

/// What a move that gives check gains in the ordering.
pub const CHECK_BONUS: i32 = 100_000;

/// What a move takes: the piece of the side not to move that stands on the
/// square where the move lands, if one stands there. A king that moves
/// onto a rook of its own side, as castling is written, takes nothing.
pub open spec fn victim_of(record: Seq<u16>, mv: Move) -> Option<Piece> {
    match code_piece(record[mv.to as int]) {
        Some(piece) => if record[mv.to as int] == square_code(opponent(side_of(record)), piece) {
            Some(piece)
        } else {
            None
        },
        None => None,
    }
}

/// Whether a move takes a piece.
pub open spec fn is_capture(record: Seq<u16>, mv: Move) -> bool {
    victim_of(record, mv) is Some
}

/// What a capture gains in the ordering: ten times the worth of what is
/// taken, less the worth of what takes.
pub open spec fn capture_bonus(record: Seq<u16>, mv: Move) -> int {
    match victim_of(record, mv) {
        Some(victim) => piece_value_opening(victim) * 10 - (match code_piece(record[mv.from as int]) {
            Some(attacker) => piece_value_opening(attacker),
            None => 0,
        }),
        None => 0,
    }
}

/// The ordering score of a legal move: the killer bonus if it is among the
/// killer moves, the capture bonus, and the check bonus if it leaves the
/// other side in check.
pub open spec fn order_score(record: Seq<u16>, mv: Move, killers: Seq<Move>) -> int {
    (if killers.contains(mv) {
        KILLER_BONUS as int
    } else {
        0
    }) + capture_bonus(record, mv) + (if record_checks(record_after(record, mv)) > 0 {
        CHECK_BONUS as int
    } else {
        0
    })
}

/// A list that falls in score, with one more item put behind every item
/// that scores at least as much.
pub open spec fn insert_by_score(sorted: Seq<(Move, i32)>, item: (Move, i32)) -> Seq<(Move, i32)>
    decreases sorted.len(),
{
    if sorted.len() == 0 {
        seq![item]
    } else if sorted.last().1 >= item.1 {
        sorted.push(item)
    } else {
        insert_by_score(sorted.drop_last(), item).push(sorted.last())
    }
}

/// The first `upto` items of a list, sorted by falling score; items that
/// score the same keep their order.
pub open spec fn sort_by_score(items: Seq<(Move, i32)>, upto: int) -> Seq<(Move, i32)>
    decreases upto,
{
    if upto <= 0 {
        Seq::empty()
    } else {
        insert_by_score(sort_by_score(items, upto - 1), items[upto - 1])
    }
}

/// The moves of a list of scored moves.
pub open spec fn moves_of(items: Seq<(Move, i32)>) -> Seq<Move> {
    Seq::new(items.len(), |i: int| items[i].0)
}

/// Moves paired with their ordering scores.
pub open spec fn scored_moves(record: Seq<u16>, moves: Seq<Move>, killers: Seq<Move>) -> Seq<
    (Move, i32),
> {
    Seq::new(moves.len(), |i: int| (moves[i], order_score(record, moves[i], killers) as i32))
}

/// Moves in the order in which the search tries them.
pub open spec fn ordered_moves(record: Seq<u16>, moves: Seq<Move>, killers: Seq<Move>) -> Seq<Move> {
    moves_of(sort_by_score(scored_moves(record, moves, killers), moves.len() as int))
}

/// Whether a list falls in score from front to back.
pub open spec fn falls_in_score(items: Seq<(Move, i32)>) -> bool {
    forall|i: int, j: int| 0 <= i < j < items.len() ==> items[i].1 >= items[j].1
}

/// Putting an item into a list is the same as inserting it at the index
/// behind which every item scores less and before which the nearest scores
/// at least as much.
pub proof fn lemma_insert_at(sorted: Seq<(Move, i32)>, item: (Move, i32), at: int)
    requires
        0 <= at <= sorted.len(),
        forall|k: int| at <= k < sorted.len() ==> sorted[k].1 < item.1,
        at > 0 ==> sorted[at - 1].1 >= item.1,
    ensures
        insert_by_score(sorted, item) == sorted.insert(at, item),
    decreases sorted.len(),
{
    if sorted.len() == 0 {
        assert(seq![item] =~= sorted.insert(at, item));
    } else if sorted.last().1 >= item.1 {
        assert(at == sorted.len());
        assert(sorted.push(item) =~= sorted.insert(at, item));
    } else {
        lemma_insert_at(sorted.drop_last(), item, at);
        assert(sorted.drop_last().insert(at, item).push(sorted.last()) =~= sorted.insert(at, item));
    }
}

/// Putting an item into a list adds that item and nothing else.
pub proof fn lemma_insert_adds_one(sorted: Seq<(Move, i32)>, item: (Move, i32))
    ensures
        insert_by_score(sorted, item).len() == sorted.len() + 1,
        insert_by_score(sorted, item).to_multiset() == sorted.to_multiset().insert(item),
    decreases sorted.len(),
{
    broadcast use vstd::seq_lib::group_to_multiset_ensures;

    if sorted.len() == 0 {
        assert(seq![item] =~= sorted.push(item));
    } else if sorted.last().1 >= item.1 {
    } else {
        let front = sorted.drop_last();
        lemma_insert_adds_one(front, item);
        assert(sorted == front.push(sorted.last()));
        assert(front.to_multiset().insert(item).insert(sorted.last()) =~= front.to_multiset().insert(
            sorted.last(),
        ).insert(item));
    }
}

/// Putting an item into a list that falls in score leaves a list that falls
/// in score.
pub proof fn lemma_insert_keeps_order(sorted: Seq<(Move, i32)>, item: (Move, i32))
    requires
        falls_in_score(sorted),
    ensures
        falls_in_score(insert_by_score(sorted, item)),
    decreases sorted.len(),
{
    if sorted.len() == 0 {
    } else if sorted.last().1 >= item.1 {
    } else {
        let front = sorted.drop_last();
        lemma_insert_keeps_order(front, item);
        lemma_insert_adds_one(front, item);
        lemma_insert_scores(front, item);
        let inner = insert_by_score(front, item);
        let whole = inner.push(sorted.last());
        assert forall|i: int, j: int| 0 <= i < j < whole.len() implies whole[i].1 >= whole[j].1 by {
            if j == whole.len() - 1 {
                assert(inner[i].1 >= sorted.last().1);
            }
        }
    }
}

/// Every item of a list after one was put in is that item or an item of
/// the list before.
pub proof fn lemma_insert_scores(sorted: Seq<(Move, i32)>, item: (Move, i32))
    ensures
        forall|i: int|
            0 <= i < insert_by_score(sorted, item).len() ==> (#[trigger] insert_by_score(
                sorted,
                item,
            )[i]) == item || sorted.contains(insert_by_score(sorted, item)[i]),
    decreases sorted.len(),
{
    if sorted.len() == 0 {
    } else if sorted.last().1 >= item.1 {
        let whole = sorted.push(item);
        assert forall|i: int| 0 <= i < whole.len() implies (#[trigger] whole[i]) == item
            || sorted.contains(whole[i]) by {
            if i < sorted.len() {
                assert(sorted[i] == whole[i]);
            }
        }
    } else {
        let front = sorted.drop_last();
        lemma_insert_scores(front, item);
        lemma_insert_adds_one(front, item);
        let inner = insert_by_score(front, item);
        let whole = inner.push(sorted.last());
        assert forall|i: int| 0 <= i < whole.len() implies (#[trigger] whole[i]) == item
            || sorted.contains(whole[i]) by {
            if i < inner.len() {
                if inner[i] != item {
                    let k = choose|k: int| 0 <= k < front.len() && front[k] == inner[i];
                    assert(sorted[k] == whole[i]);
                }
            } else {
                assert(sorted[sorted.len() - 1] == whole[i]);
            }
        }
    }
}

/// Sorting rearranges: the sorted list holds the items sorted, each as
/// often as they held it, and falls in score.
pub proof fn lemma_sort_by_score(items: Seq<(Move, i32)>, upto: int)
    requires
        0 <= upto <= items.len(),
    ensures
        sort_by_score(items, upto).len() == upto,
        sort_by_score(items, upto).to_multiset() == items.take(upto).to_multiset(),
        falls_in_score(sort_by_score(items, upto)),
        forall|i: int|
            0 <= i < upto ==> items.contains(#[trigger] sort_by_score(items, upto)[i]),
    decreases upto,
{
    broadcast use vstd::seq_lib::group_to_multiset_ensures;

    if upto > 0 {
        lemma_sort_by_score(items, upto - 1);
        let before = sort_by_score(items, upto - 1);
        lemma_insert_adds_one(before, items[upto - 1]);
        lemma_insert_keeps_order(before, items[upto - 1]);
        lemma_insert_scores(before, items[upto - 1]);
        assert(items.take(upto) =~= items.take(upto - 1).push(items[upto - 1]));
        let after = sort_by_score(items, upto);
        assert forall|i: int| 0 <= i < upto implies items.contains(#[trigger] after[i]) by {
            if after[i] == items[upto - 1] {
            } else {
                let k = choose|k: int| 0 <= k < before.len() && before[k] == after[i];
                assert(items.contains(before[k]));
            }
        }
    } else {
        assert(items.take(0) =~= Seq::<(Move, i32)>::empty());
    }
}

/// The index at which an item of a given score goes into a list: behind
/// the last item that scores at least as much.
pub open spec fn insert_index(sorted: Seq<(Move, i32)>, score: i32) -> int
    decreases sorted.len(),
{
    if sorted.len() == 0 {
        0
    } else if sorted.last().1 >= score {
        sorted.len() as int
    } else {
        insert_index(sorted.drop_last(), score)
    }
}

/// For each place of the sorted list, the index in the unsorted list of
/// the item that stands there.
pub open spec fn sort_order(items: Seq<(Move, i32)>, upto: int) -> Seq<int>
    decreases upto,
{
    if upto <= 0 {
        Seq::empty()
    } else {
        sort_order(items, upto - 1).insert(
            insert_index(sort_by_score(items, upto - 1), items[upto - 1].1),
            upto - 1,
        )
    }
}

/// Whether `order` ranks the first `upto` items by falling score, and
/// items of the same score by rising index: it names every index below
/// `upto` at most once, and of two places the earlier holds the index of
/// an item that scores more, or scores the same and has the lower index.
pub open spec fn ranks_stably(items: Seq<(Move, i32)>, upto: int, order: Seq<int>) -> bool {
    &&& order.len() == upto
    &&& forall|k: int| 0 <= k < upto ==> 0 <= #[trigger] order[k] < upto
    &&& forall|k: int, l: int|
        0 <= k < l < upto ==> items[#[trigger] order[k]].1 > items[#[trigger] order[l]].1 || (
        items[order[k]].1 == items[order[l]].1 && order[k] < order[l])
}

/// In a list that falls in score, the items before the insert index score
/// at least the given score and the items from it on score less.
pub proof fn lemma_insert_index(sorted: Seq<(Move, i32)>, score: i32)
    requires
        falls_in_score(sorted),
    ensures
        0 <= insert_index(sorted, score) <= sorted.len(),
        forall|k: int| 0 <= k < insert_index(sorted, score) ==> (#[trigger] sorted[k]).1 >= score,
        forall|k: int| insert_index(sorted, score) <= k < sorted.len() ==> (#[trigger] sorted[k]).1 < score,
    decreases sorted.len(),
{
    if sorted.len() == 0 {
    } else if sorted.last().1 >= score {
        assert forall|k: int| 0 <= k < sorted.len() implies (#[trigger] sorted[k]).1 >= score by {
            if k < sorted.len() - 1 {
                assert(sorted[k].1 >= sorted[sorted.len() - 1].1);
            }
        }
    } else {
        let front = sorted.drop_last();
        assert(falls_in_score(front)) by {
            assert forall|i: int, j: int| 0 <= i < j < front.len() implies front[i].1 >= front[j].1 by {
                assert(sorted[i].1 >= sorted[j].1);
            }
        }
        lemma_insert_index(front, score);
        assert forall|k: int| insert_index(sorted, score) <= k < sorted.len() implies (
        #[trigger] sorted[k]).1 < score by {
            if k < front.len() {
                assert(front[k].1 < score);
            }
        }
        assert forall|k: int| 0 <= k < insert_index(sorted, score) implies (#[trigger] sorted[k]).1
            >= score by {
            assert(front[k].1 >= score);
        }
    }
}

/// Sorting is stable: the sorted list is the list given, rearranged by an
/// order that ranks by falling score and leaves items of the same score in
/// the order in which they came.
pub proof fn lemma_sort_is_stable(items: Seq<(Move, i32)>, upto: int)
    requires
        0 <= upto <= items.len(),
    ensures
        ranks_stably(items, upto, sort_order(items, upto)),
        sort_by_score(items, upto).len() == upto,
        forall|k: int|
            0 <= k < upto ==> (#[trigger] sort_by_score(items, upto)[k]) == items[sort_order(
                items,
                upto,
            )[k]],
    decreases upto,
{
    if upto > 0 {
        lemma_sort_is_stable(items, upto - 1);
        lemma_sort_by_score(items, upto - 1);
        let before = sort_by_score(items, upto - 1);
        let order = sort_order(items, upto - 1);
        let item = items[upto - 1];
        let at = insert_index(before, item.1);
        lemma_insert_index(before, item.1);
        lemma_insert_at(before, item, at);
        let after = sort_by_score(items, upto);
        let ranked = sort_order(items, upto);
        assert(after == before.insert(at, item));
        assert(ranked == order.insert(at, upto - 1));
        assert forall|k: int| 0 <= k < upto implies (#[trigger] after[k]) == items[ranked[k]] by {
            if k < at {
                assert(after[k] == before[k]);
                assert(ranked[k] == order[k]);
            } else if k == at {
            } else {
                assert(after[k] == before[k - 1]);
                assert(ranked[k] == order[k - 1]);
            }
        }
        assert forall|k: int| 0 <= k < upto implies 0 <= #[trigger] ranked[k] < upto by {
            if k < at {
                assert(ranked[k] == order[k]);
            } else if k == at {
            } else {
                assert(ranked[k] == order[k - 1]);
            }
        }
        assert forall|k: int, l: int| 0 <= k < l < upto implies items[#[trigger] ranked[k]].1 > items[
        #[trigger] ranked[l]].1 || (items[ranked[k]].1 == items[ranked[l]].1 && ranked[k] < ranked[l]) by {
            let from_k = if k < at {
                k
            } else {
                k - 1
            };
            let from_l = if l < at {
                l
            } else {
                l - 1
            };
            if k != at {
                assert(ranked[k] == order[from_k]);
                assert(before[from_k] == items[order[from_k]]);
            }
            if l != at {
                assert(ranked[l] == order[from_l]);
                assert(before[from_l] == items[order[from_l]]);
            }
            if k == at {
                assert(before[from_l].1 < item.1);
            } else if l == at {
                assert(before[from_k].1 >= item.1);
                assert(order[from_k] < upto - 1);
            } else {
                assert(from_k < from_l);
            }
        }
    }
}

/// The moves in search order are the moves given, rearranged.
pub proof fn lemma_ordered_moves(record: Seq<u16>, moves: Seq<Move>, killers: Seq<Move>)
    ensures
        ordered_moves(record, moves, killers).len() == moves.len(),
        forall|i: int|
            0 <= i < moves.len() ==> moves.contains(#[trigger] ordered_moves(record, moves, killers)[i]),
{
    let scored = scored_moves(record, moves, killers);
    lemma_sort_by_score(scored, moves.len() as int);
    let sorted = sort_by_score(scored, moves.len() as int);
    assert forall|i: int| 0 <= i < moves.len() implies moves.contains(
        #[trigger] ordered_moves(record, moves, killers)[i],
    ) by {
        assert(scored.contains(sorted[i]));
        let k = choose|k: int| 0 <= k < scored.len() && scored[k] == sorted[i];
        assert(moves[k] == sorted[i].0);
    }
}

/// Tells what a move takes, if anything.
pub fn victim(board: &Board, mv: &Move) -> (taken: Option<Piece>)
    requires
        mv.to < 64,
    ensures
        taken == victim_of(board_record(*board), *mv),
{
    match piece_on(board, mv.to) {
        Some(piece) => {
            let enemy = match side_to_move(board) {
                Color::White => Color::Black,
                Color::Black => Color::White,
            };
            let squares = colored_pieces(board, enemy, piece);
            proof {
                lemma_squares_holding_contains(
                    board_record(*board),
                    square_code(enemy, piece),
                    64,
                    mv.to as int,
                );
            }
            let mut i: usize = 0;
            while i < squares.len()
                invariant
                    i <= squares@.len(),
                    forall|k: int| 0 <= k < i ==> squares@[k] != mv.to,
                    code_piece(board_record(*board)[mv.to as int]) == Some(piece),
                    enemy == opponent(side_of(board_record(*board))),
                    squares@.contains(mv.to) <==> board_record(*board)[mv.to as int] == square_code(
                        enemy,
                        piece,
                    ),
                decreases squares@.len() - i,
            {
                if squares[i] == mv.to {
                    return Some(piece);
                }
                i = i + 1;
            }
            None
        },
        None => None,
    }
}

/// Tells whether a move is among the given moves.
pub fn contains_move(moves: &Vec<Move>, mv: Move) -> (found: bool)
    ensures
        found == moves@.contains(mv),
{
    let mut i: usize = 0;
    while i < moves.len()
        invariant
            i <= moves@.len(),
            forall|k: int| 0 <= k < i ==> moves@[k] != mv,
        decreases moves@.len() - i,
    {
        if moves[i] == mv {
            return true;
        }
        i = i + 1;
    }
    false
}

/// Sorts scored moves by falling score; moves that score the same keep
/// their order.
pub fn sort_scored(items: &Vec<(Move, i32)>) -> (sorted: Vec<(Move, i32)>)
    ensures
        sorted@ == sort_by_score(items@, items@.len() as int),
{
    let mut sorted: Vec<(Move, i32)> = Vec::new();
    let mut i: usize = 0;
    while i < items.len()
        invariant
            i <= items@.len(),
            sorted@ == sort_by_score(items@, i as int),
            sorted@.len() == i,
        decreases items@.len() - i,
    {
        let item = items[i];
        let mut at: usize = sorted.len();
        while at > 0 && sorted[at - 1].1 < item.1
            invariant
                at <= sorted@.len(),
                forall|k: int| at <= k < sorted@.len() ==> sorted@[k].1 < item.1,
            decreases at,
        {
            at = at - 1;
        }
        proof {
            lemma_insert_at(sorted@, item, at as int);
        }
        sorted.insert(at, item);
        i = i + 1;
    }
    sorted
}

/// Scores a legal move for the ordering.
pub fn move_order_score(board: &Board, mv: &Move, killer_moves: &Vec<Move>) -> (score: i32)
    requires
        mv.from < 64,
        mv.to < 64,
        record_moves(board_record(*board)).contains(*mv),
    ensures
        score == order_score(board_record(*board), *mv, killer_moves@),
        -1_000 <= score <= 1_200_000,
{
    let mut score: i32 = 0;
    if contains_move(killer_moves, *mv) {
        score += KILLER_BONUS;
    }
    if let Some(captured_piece) = victim(board, mv) {
        let victim_value = get_piece_value_opening(captured_piece);
        let attacker_value = match piece_on(board, mv.from) {
            Some(attacker) => get_piece_value_opening(attacker),
            None => 0,
        };
        score += victim_value * 10 - attacker_value;
    }
    let move_board = play(board, *mv);
    if checking_pieces(&move_board) > 0 {
        score += CHECK_BONUS;
    }
    score
}

/// Puts legal moves into the order in which the search tries them: by
/// falling score, moves that score the same in the order given.
pub fn order_moves(board: &Board, moves: Vec<Move>, killer_moves: &Vec<Move>) -> (ordered: Vec<Move>)
    requires
        forall|i: int|
            0 <= i < moves@.len() ==> (#[trigger] moves@[i]).from < 64 && moves@[i].to < 64
                && record_moves(board_record(*board)).contains(moves@[i]),
    ensures
        ordered@ == ordered_moves(board_record(*board), moves@, killer_moves@),
        ordered@.len() == moves@.len(),
        forall|i: int| 0 <= i < ordered@.len() ==> moves@.contains(#[trigger] ordered@[i]),
{
    let mut moves_with_scores: Vec<(Move, i32)> = Vec::new();
    let mut i: usize = 0;
    while i < moves.len()
        invariant
            i <= moves@.len(),
            forall|k: int|
                0 <= k < moves@.len() ==> (#[trigger] moves@[k]).from < 64 && moves@[k].to < 64
                    && record_moves(board_record(*board)).contains(moves@[k]),
            moves_with_scores@ == scored_moves(board_record(*board), moves@, killer_moves@).take(
                i as int,
            ),
        decreases moves@.len() - i,
    {
        let mv = moves[i];
        let score = move_order_score(board, &mv, killer_moves);
        moves_with_scores.push((mv, score));
        assert(moves_with_scores@ =~= scored_moves(board_record(*board), moves@, killer_moves@).take(
            i + 1,
        ));
        i = i + 1;
    }
    assert(moves_with_scores@ =~= scored_moves(board_record(*board), moves@, killer_moves@));
    let sorted = sort_scored(&moves_with_scores);
    let ordered = strip_scores(&sorted);
    proof {
        lemma_sort_by_score(moves_with_scores@, moves@.len() as int);
        lemma_ordered_moves(board_record(*board), moves@, killer_moves@);
    }
    ordered
}

/// The moves of a list of scored moves, in their order.
pub fn strip_scores(items: &Vec<(Move, i32)>) -> (moves: Vec<Move>)
    ensures
        moves@ == moves_of(items@),
{
    let mut moves: Vec<Move> = Vec::new();
    let mut i: usize = 0;
    while i < items.len()
        invariant
            i <= items@.len(),
            moves@ == moves_of(items@).take(i as int),
        decreases items@.len() - i,
    {
        moves.push(items[i].0);
        assert(moves@ =~= moves_of(items@).take(i + 1));
        i = i + 1;
    }
    assert(moves@ =~= moves_of(items@));
    moves
}

} // verus!
