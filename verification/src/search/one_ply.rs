//! One half-move deep, the search is plain minimax: it returns the best of
//! the values of the positions after each move, pruning or not.

use vstd::prelude::*;
use crate::board::{record_after, record_hash, record_moves, side_of, status_of};
use crate::eval::eval::eval_score;
use crate::eval::eval_is_mate::{
    is_mate_value,
    lemma_mate_magnitude_decreases,
    mate_magnitude,
    MAX_PLY,
};
use crate::search::is_threefold::threefold;
use crate::search::mini_max::{
    improve,
    search,
    search_move,
    search_moves,
    settles,
    Best,
    SearchState,
};
use crate::search::order_moves::{
    lemma_sort_by_score,
    ordered_moves,
    scored_moves,
    sort_by_score,
};
use crate::search::quiescence::{
    bump,
    capture_value,
    clamp_score,
    lemma_quiesce_is_capture_value,
    max_score,
    min_score,
};
use crate::search::transposition_table::lookup;
use crate::types::{Color, GameStatus, Move};

verus! {

/// The value of a position at the horizon: the evaluator's score of a
/// finished game, 0 for a position seen three times, a mate score as it
/// stands, and else the value of the capture search without pruning.
pub open spec fn leaf_value(record: Seq<u16>, history: Seq<u64>, ply: int) -> i32 {
    if status_of(record) != GameStatus::Ongoing {
        eval_score(record, ply) as i32
    } else if threefold(record_hash(record), history) {
        0
    } else if is_mate_value(eval_score(record, ply) as i32 as int) {
        eval_score(record, ply) as i32
    } else {
        capture_value(record, ply)
    }
}

/// The best for the side to move of `so_far` and the horizon values of the
/// positions after the moves from index `from` on.
pub open spec fn best_reply(
    record: Seq<u16>,
    history: Seq<u64>,
    ply: int,
    moves: Seq<Move>,
    from: int,
    so_far: i32,
) -> i32
    decreases moves.len() - from,
{
    if from < 0 || from >= moves.len() {
        so_far
    } else {
        let next = record_after(record, moves[from]);
        let value = leaf_value(next, history.push(record_hash(next)), ply + 1);
        best_reply(
            record,
            history,
            ply,
            moves,
            from + 1,
            match side_of(record) {
                Color::White => max_score(so_far, value),
                Color::Black => min_score(so_far, value),
            },
        )
    }
}

/// The value of a position by plain minimax one half-move deep: the best
/// for the side to move of the horizon values of the positions after its
/// moves, taken in the order in which the search tries them.
pub open spec fn one_ply_value(record: Seq<u16>, history: Seq<u64>, ply: int, killers: Seq<Move>) -> i32 {
    best_reply(
        record,
        history,
        ply,
        ordered_moves(record, record_moves(record), killers),
        0,
        match side_of(record) {
            Color::White => i32::MIN,
            Color::Black => i32::MAX,
        },
    )
}

/// At the horizon the search returns the horizon value, brought into the
/// window where quiescence search decides; it stores nothing and
/// remembers no killer move.
proof fn lemma_horizon(
    record: Seq<u16>,
    history: Seq<u64>,
    alpha: i32,
    beta: i32,
    ply: int,
    state: SearchState,
)
    requires
        alpha <= beta,
    ensures
        ({
            let found = search(record, history, 0, alpha, beta, ply, state);
            let value = leaf_value(record, history, ply);
            &&& found.score == value || found.score == clamp_score(value, alpha, beta)
            &&& found.state.table == state.table
            &&& found.state.killers == state.killers
        }),
{
    lemma_quiesce_is_capture_value(record, alpha, beta, ply, state.nodes);
}

/// Once the best so far is the highest score for White, or the lowest for
/// Black, no further move changes it.
proof fn lemma_best_reply_at_the_end(
    record: Seq<u16>,
    history: Seq<u64>,
    ply: int,
    moves: Seq<Move>,
    from: int,
)
    ensures
        side_of(record) == Color::White ==> best_reply(record, history, ply, moves, from, i32::MAX)
            == i32::MAX,
        side_of(record) == Color::Black ==> best_reply(record, history, ply, moves, from, i32::MIN)
            == i32::MIN,
    decreases moves.len() - from,
{
    if from < 0 || from >= moves.len() {
    } else {
        lemma_best_reply_at_the_end(record, history, ply, moves, from + 1);
    }
}

/// Whether the best move so far, if there is one, is one of the moves and
/// leads to a position whose horizon value is the best score so far.
pub open spec fn attains(record: Seq<u16>, history: Seq<u64>, ply: int, moves: Seq<Move>, mv: Option<Move>, score: i32) -> bool {
    match mv {
        Some(best) => {
            let next = record_after(record, best);
            moves.contains(best) && leaf_value(next, history.push(record_hash(next)), ply + 1) == score
        },
        None => true,
    }
}

/// One half-move deep with the widest window, the moves from index `from`
/// on lead to the best of the best so far and their horizon values, and
/// the best move found leads to a position of that value.
proof fn lemma_one_ply_moves(
    record: Seq<u16>,
    history: Seq<u64>,
    ply: int,
    moves: Seq<Move>,
    from: int,
    best: Best,
    state: SearchState,
)
    requires
        0 <= from,
        attains(record, history, ply, moves, best.mv, best.score),
    ensures
        side_of(record) == Color::White ==> ({
            let found = search_moves(
                record,
                history,
                1,
                i32::MIN,
                i32::MAX,
                ply,
                moves,
                from,
                best.score,
                i32::MAX,
                best,
                state,
            );
            &&& found.score == best_reply(record, history, ply, moves, from, best.score)
            &&& attains(record, history, ply, moves, found.best_move, found.score)
        }),
        side_of(record) == Color::Black ==> ({
            let found = search_moves(
                record,
                history,
                1,
                i32::MIN,
                i32::MAX,
                ply,
                moves,
                from,
                i32::MIN,
                best.score,
                best,
                state,
            );
            &&& found.score == best_reply(record, history, ply, moves, from, best.score)
            &&& attains(record, history, ply, moves, found.best_move, found.score)
        }),
    decreases moves.len() - from,
{
    if from >= moves.len() {
    } else {
        let mv = moves[from];
        let next = record_after(record, mv);
        let line = history.push(record_hash(next));
        let value = leaf_value(next, line, ply + 1);
        match side_of(record) {
            Color::White => {
                let alpha = best.score;
                lemma_horizon(next, line, alpha, i32::MAX, ply + 1, state);
                let reply = search_move(record, history, 1, alpha, i32::MAX, ply, mv, from, state);
                assert(reply == search(next, line, 0, alpha, i32::MAX, ply + 1, state));
                let better = improve(best, Color::White, mv, reply.score, reply.pv);
                assert(better.score == max_score(alpha, value));
                assert(attains(record, history, ply, moves, better.mv, better.score));
                if better.score >= i32::MAX {
                    lemma_best_reply_at_the_end(record, history, ply, moves, from + 1);
                } else {
                    lemma_one_ply_moves(record, history, ply, moves, from + 1, better, reply.state);
                }
            },
            Color::Black => {
                let beta = best.score;
                lemma_horizon(next, line, i32::MIN, beta, ply + 1, state);
                let reply = search_move(record, history, 1, i32::MIN, beta, ply, mv, from, state);
                assert(reply == search(next, line, 0, i32::MIN, beta, ply + 1, state));
                let better = improve(best, Color::Black, mv, reply.score, reply.pv);
                assert(better.score == min_score(beta, value));
                assert(attains(record, history, ply, moves, better.mv, better.score));
                if better.score <= i32::MIN {
                    lemma_best_reply_at_the_end(record, history, ply, moves, from + 1);
                } else {
                    lemma_one_ply_moves(record, history, ply, moves, from + 1, better, reply.state);
                }
            },
        }
    }
}

/// One half-move deep the search is plain minimax. With the widest window,
/// on a position where the game goes on, that has not been seen three
/// times and that the table does not settle, the search returns the value
/// by plain minimax, and its best move leads to a position of that value:
/// all its pruning loses nothing.
pub proof fn lemma_one_ply_search_is_minimax(
    record: Seq<u16>,
    history: Seq<u64>,
    ply: int,
    state: SearchState,
)
    requires
        0 <= ply < MAX_PLY,
        status_of(record) == GameStatus::Ongoing,
        !threefold(record_hash(record), history),
        !(lookup(state.table, record_hash(record)) is Some && settles(
            lookup(state.table, record_hash(record))->0,
            1,
            i32::MIN,
            i32::MAX,
        )),
    ensures
        search(record, history, 1, i32::MIN, i32::MAX, ply, state).score == one_ply_value(
            record,
            history,
            ply,
            state.killers[ply],
        ),
        attains(
            record,
            history,
            ply,
            ordered_moves(record, record_moves(record), state.killers[ply]),
            search(record, history, 1, i32::MIN, i32::MAX, ply, state).best_move,
            search(record, history, 1, i32::MIN, i32::MAX, ply, state).score,
        ),
{
    let first = match side_of(record) {
        Color::White => i32::MIN,
        Color::Black => i32::MAX,
    };
    lemma_one_ply_moves(
        record,
        history,
        ply,
        ordered_moves(record, record_moves(record), state.killers[ply]),
        0,
        Best { score: first, mv: None, pv: Seq::empty() },
        SearchState { table: state.table, killers: state.killers, nodes: bump(state.nodes) },
    );
}

/// Every move of a list comes up in the order in which the search tries
/// the list.
pub proof fn lemma_ordered_moves_hold_all(record: Seq<u16>, moves: Seq<Move>, killers: Seq<Move>, mv: Move)
    requires
        moves.contains(mv),
    ensures
        ordered_moves(record, moves, killers).contains(mv),
{
    let scored = scored_moves(record, moves, killers);
    let sorted = sort_by_score(scored, moves.len() as int);
    lemma_sort_by_score(scored, moves.len() as int);
    let k = choose|k: int| 0 <= k < moves.len() && moves[k] == mv;
    assert(scored.take(moves.len() as int) =~= scored);
    assert(scored.contains(scored[k]));
    vstd::seq_lib::to_multiset_contains(scored, scored[k]);
    vstd::seq_lib::to_multiset_contains(sorted, scored[k]);
    assert(sorted.contains(scored[k]));
    let i = choose|i: int| 0 <= i < sorted.len() && sorted[i] == scored[k];
    assert(ordered_moves(record, moves, killers)[i] == mv);
}

/// The best reply is at least as good for the side to move as the best so
/// far and as the horizon value of the position after any of the moves
/// still to come.
pub proof fn lemma_best_reply_is_no_worse(
    record: Seq<u16>,
    history: Seq<u64>,
    ply: int,
    moves: Seq<Move>,
    from: int,
    so_far: i32,
    at: int,
)
    requires
        0 <= from <= at < moves.len(),
    ensures
        ({
            let next = record_after(record, moves[at]);
            let value = leaf_value(next, history.push(record_hash(next)), ply + 1);
            let best = best_reply(record, history, ply, moves, from, so_far);
            match side_of(record) {
                Color::White => best >= value && best >= so_far,
                Color::Black => best <= value && best <= so_far,
            }
        }),
    decreases moves.len() - from,
{
    let next = record_after(record, moves[from]);
    let value = leaf_value(next, history.push(record_hash(next)), ply + 1);
    let better = match side_of(record) {
        Color::White => max_score(so_far, value),
        Color::Black => min_score(so_far, value),
    };
    if from < at {
        lemma_best_reply_is_no_worse(record, history, ply, moves, from + 1, better, at);
    } else if from + 1 < moves.len() {
        lemma_best_reply_is_no_worse(record, history, ply, moves, from + 1, better, from + 1);
    }
}

/// A mate in one is found one half-move deep. Where a move of the side to
/// move mates the other side, the search with the widest window returns at
/// least the score of a mate one half-move further from the root, in
/// favour of the side to move: a mate score, and more in magnitude than
/// any mate that lies further off.
pub proof fn lemma_one_ply_search_finds_mate(
    record: Seq<u16>,
    history: Seq<u64>,
    ply: int,
    state: SearchState,
    mv: Move,
)
    requires
        0 <= ply < MAX_PLY,
        status_of(record) == GameStatus::Ongoing,
        !threefold(record_hash(record), history),
        !(lookup(state.table, record_hash(record)) is Some && settles(
            lookup(state.table, record_hash(record))->0,
            1,
            i32::MIN,
            i32::MAX,
        )),
        record_moves(record).contains(mv),
        status_of(record_after(record, mv)) == GameStatus::Won,
        side_of(record_after(record, mv)) != side_of(record),
    ensures
        ({
            let score = search(record, history, 1, i32::MIN, i32::MAX, ply, state).score;
            &&& match side_of(record) {
                Color::White => score >= mate_magnitude(ply + 1),
                Color::Black => score <= -mate_magnitude(ply + 1),
            }
            &&& is_mate_value(score as int)
            &&& forall|far: int|
                ply + 1 < far ==> match side_of(record) {
                    Color::White => score > #[trigger] mate_magnitude(far),
                    Color::Black => score < -mate_magnitude(far),
                }
        }),
{
    lemma_one_ply_search_is_minimax(record, history, ply, state);
    let moves = ordered_moves(record, record_moves(record), state.killers[ply]);
    lemma_ordered_moves_hold_all(record, record_moves(record), state.killers[ply], mv);
    let at = choose|at: int| 0 <= at < moves.len() && moves[at] == mv;
    let first = match side_of(record) {
        Color::White => i32::MIN,
        Color::Black => i32::MAX,
    };
    lemma_best_reply_is_no_worse(record, history, ply, moves, 0, first, at);
    let score = search(record, history, 1, i32::MIN, i32::MAX, ply, state).score;
    assert forall|far: int| ply + 1 < far implies match side_of(record) {
        Color::White => score > #[trigger] mate_magnitude(far),
        Color::Black => score < -mate_magnitude(far),
    } by {
        lemma_mate_magnitude_decreases(ply + 1, far);
    }
}

/// A mate on the board scores by its distance from the root. Unless the
/// table settles the node, the search of a position in which the side to
/// move is mated returns the mate's magnitude at that distance, against
/// the mated side; so of two mates the nearer scores strictly more in
/// magnitude.
pub proof fn lemma_mate_scores_by_distance(
    record: Seq<u16>,
    history: Seq<u64>,
    depth: int,
    alpha: i32,
    beta: i32,
    ply: int,
    state: SearchState,
)
    requires
        0 <= ply <= MAX_PLY,
        status_of(record) == GameStatus::Won,
        !(lookup(state.table, record_hash(record)) is Some && settles(
            lookup(state.table, record_hash(record))->0,
            depth,
            alpha,
            beta,
        )),
    ensures
        search(record, history, depth, alpha, beta, ply, state).score == match side_of(record) {
            Color::White => -mate_magnitude(ply),
            Color::Black => mate_magnitude(ply),
        },
        search(record, history, depth, alpha, beta, ply, state).best_move is None,
        search(record, history, depth, alpha, beta, ply, state).state == state,
{
}

} // verus!
