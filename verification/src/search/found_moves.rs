//! A search always comes back with a move where there is one to play.
//!
//! The best score of a node starts at the lowest score for White and at
//! the highest for Black, and a move is taken up only if it scores
//! strictly better. No position ever scores as low or as high as that, so
//! the first move searched is always taken up, and a search that runs to
//! its end names a move: a legal one, as long as the table did not know
//! the position beforehand.

use vstd::prelude::*;
use crate::board::{record_after, record_hash, record_moves, side_of, status_of};
use crate::eval::bounds::lemma_eval_score_bounded;
use crate::eval::eval::eval_score;
use crate::eval::eval_is_mate::MAX_PLY;
use crate::search::is_threefold::threefold;
use crate::search::killers::remember;
use crate::search::mini_max::{
    finish,
    improve,
    lemma_search_returns_a_legal_move,
    reduction,
    search,
    search_move,
    search_moves,
    settles,
    Best,
    SearchState,
};
use crate::search::order_moves::{lemma_ordered_moves, ordered_moves};
use crate::search::quiescence::{
    bump,
    capture_moves,
    max_score,
    min_score,
    quiesce,
    quiesce_captures,
};
use crate::search::stored_depths::{
    holds_nothing_for,
    lemma_deepened_stores_within,
    slot_kept_or_within,
};
use crate::search::transposition_table::{
    lemma_slot_index_in_range,
    lookup,
    slot_index,
    EntryView,
};
use crate::types::{Color, GameStatus, Move};
use crate::uci::uci_command_go::{
    bestmove_chars,
    deepened,
    go_lines,
    no_killers,
    progress_lines,
};

verus! {

/// Whether a score lies strictly between the lowest and the highest score,
/// which stand for "nothing found yet".
pub open spec fn proper_score(score: i32) -> bool {
    i32::MIN < score < i32::MAX
}

/// Whether every entry of a table holds a proper score.
pub open spec fn proper_table(table: Seq<Option<EntryView>>) -> bool {
    forall|i: int|
        0 <= i < table.len() ==> ((#[trigger] table[i]) matches Some(entry) ==> proper_score(entry.score))
}

/// The score with which a side starts out at a node, before any move.
pub open spec fn nothing_yet(side: Color) -> i32 {
    match side {
        Color::White => i32::MIN,
        Color::Black => i32::MAX,
    }
}

/// A static score taken on the way of a search is a proper score.
pub proof fn lemma_static_score_is_proper(record: Seq<u16>, ply: int)
    requires
        0 <= ply <= MAX_PLY,
    ensures
        proper_score(eval_score(record, ply) as i32),
        eval_score(record, ply) as i32 == eval_score(record, ply),
{
    lemma_eval_score_bounded(record, ply);
}

/// Quiescence search within a window that is not empty returns a proper
/// score.
pub proof fn lemma_quiesce_is_proper(record: Seq<u16>, alpha: i32, beta: i32, ply: int, nodes: u64)
    requires
        alpha < beta,
        0 <= ply <= MAX_PLY,
    ensures
        proper_score(quiesce(record, alpha, beta, ply, nodes).0),
    decreases MAX_PLY - ply, 1int, 0int,
{
    lemma_static_score_is_proper(record, ply);
    let stand_pat = eval_score(record, ply) as i32;
    match side_of(record) {
        Color::White => {
            if stand_pat < beta {
                lemma_quiesce_captures_are_proper(
                    record,
                    capture_moves(record),
                    0,
                    max_score(alpha, stand_pat),
                    beta,
                    ply,
                    bump(nodes),
                );
            }
        },
        Color::Black => {
            if stand_pat > alpha {
                lemma_quiesce_captures_are_proper(
                    record,
                    capture_moves(record),
                    0,
                    alpha,
                    min_score(beta, stand_pat),
                    ply,
                    bump(nodes),
                );
            }
        },
    }
}

/// The captures of a quiescence search leave a proper score, once the
/// side to move has a proper score to fall back on.
pub proof fn lemma_quiesce_captures_are_proper(
    record: Seq<u16>,
    captures: Seq<Move>,
    from: int,
    alpha: i32,
    beta: i32,
    ply: int,
    nodes: u64,
)
    requires
        alpha < beta,
        0 <= ply <= MAX_PLY,
        match side_of(record) {
            Color::White => proper_score(alpha),
            Color::Black => proper_score(beta),
        },
    ensures
        proper_score(quiesce_captures(record, captures, from, alpha, beta, ply, nodes).0),
    decreases MAX_PLY - ply, 0int, captures.len() - from,
{
    if from >= captures.len() || ply >= MAX_PLY || from < 0 {
    } else {
        let next = record_after(record, captures[from]);
        lemma_quiesce_is_proper(next, alpha, beta, ply + 1, nodes);
        let reply = quiesce(next, alpha, beta, ply + 1, nodes);
        match side_of(record) {
            Color::White => {
                let raised = max_score(alpha, reply.0);
                if raised < beta {
                    lemma_quiesce_captures_are_proper(record, captures, from + 1, raised, beta, ply, reply.1);
                }
            },
            Color::Black => {
                let lowered = min_score(beta, reply.0);
                if lowered > alpha {
                    lemma_quiesce_captures_are_proper(record, captures, from + 1, alpha, lowered, ply, reply.1);
                }
            },
        }
    }
}

/// A node whose best move has a proper score leaves a proper table.
pub proof fn lemma_finish_is_proper(
    record: Seq<u16>,
    depth: int,
    entry_alpha: i32,
    entry_beta: i32,
    best: Best,
    state: SearchState,
)
    requires
        0 < state.table.len() <= usize::MAX,
        proper_table(state.table),
        best.mv is Some ==> proper_score(best.score),
    ensures
        proper_table(finish(record, depth, entry_alpha, entry_beta, best, state).state.table),
        finish(record, depth, entry_alpha, entry_beta, best, state).state.table.len()
            == state.table.len(),
{
    lemma_slot_index_in_range(record_hash(record), state.table.len() as usize);
}

/// Whether a node is searched move by move: the table does not settle it,
/// the game goes on there, the position has not been seen three times, and
/// the node lies above the horizon.
pub open spec fn searches_moves(
    record: Seq<u16>,
    history: Seq<u64>,
    depth: int,
    alpha: i32,
    beta: i32,
    ply: int,
    table: Seq<Option<EntryView>>,
) -> bool {
    &&& !(lookup(table, record_hash(record)) is Some && settles(
        lookup(table, record_hash(record))->0,
        depth,
        alpha,
        beta,
    ))
    &&& status_of(record) == GameStatus::Ongoing
    &&& !threefold(record_hash(record), history)
    &&& depth > 0
    &&& ply < MAX_PLY
}

/// The search of a node within a window that is not empty, on a proper
/// table, returns a proper score and leaves a proper table; and where the
/// node is searched move by move, it returns a move.
pub proof fn lemma_search_is_proper(
    record: Seq<u16>,
    history: Seq<u64>,
    depth: int,
    alpha: i32,
    beta: i32,
    ply: int,
    state: SearchState,
)
    requires
        alpha < beta,
        0 <= ply <= MAX_PLY,
        0 < state.table.len() <= usize::MAX,
        proper_table(state.table),
    ensures
        proper_score(search(record, history, depth, alpha, beta, ply, state).score),
        proper_table(search(record, history, depth, alpha, beta, ply, state).state.table),
        search(record, history, depth, alpha, beta, ply, state).state.table.len() == state.table.len(),
        searches_moves(record, history, depth, alpha, beta, ply, state.table) ==> search(
            record,
            history,
            depth,
            alpha,
            beta,
            ply,
            state,
        ).best_move is Some,
    decreases depth, 2int, 0int,
{
    let key = record_hash(record);
    let found = lookup(state.table, key);
    lemma_slot_index_in_range(key, state.table.len() as usize);
    lemma_static_score_is_proper(record, ply);
    if found is Some && settles(found->0, depth, alpha, beta) {
        assert(state.table[slot_index(key, state.table.len())] == Some(found->0));
    } else if status_of(record) != GameStatus::Ongoing {
    } else if threefold(key, history) {
    } else if depth <= 0 || ply >= MAX_PLY {
        lemma_quiesce_is_proper(record, alpha, beta, ply, state.nodes);
    } else {
        let moves = ordered_moves(record, record_moves(record), state.killers[ply]);
        lemma_ordered_moves(record, record_moves(record), state.killers[ply]);
        lemma_moves_are_proper(
            record,
            history,
            depth,
            alpha,
            beta,
            ply,
            moves,
            0,
            alpha,
            beta,
            Best { score: nothing_yet(side_of(record)), mv: None, pv: Seq::empty() },
            SearchState { table: state.table, killers: state.killers, nodes: bump(state.nodes) },
        );
    }
}

/// The search of a node's moves from index `from` on returns a move with
/// a proper score, if a move is left to search or one has been found
/// already.
pub proof fn lemma_moves_are_proper(
    record: Seq<u16>,
    history: Seq<u64>,
    depth: int,
    entry_alpha: i32,
    entry_beta: i32,
    ply: int,
    moves: Seq<Move>,
    from: int,
    alpha: i32,
    beta: i32,
    best: Best,
    state: SearchState,
)
    requires
        alpha < beta,
        0 <= ply < MAX_PLY,
        depth > 0,
        0 <= from,
        0 < state.table.len() <= usize::MAX,
        proper_table(state.table),
        best.mv is Some ==> proper_score(best.score),
        best.mv is None ==> best.score == nothing_yet(side_of(record)),
        best.mv is Some || from < moves.len(),
    ensures
        ({
            let result = search_moves(
                record,
                history,
                depth,
                entry_alpha,
                entry_beta,
                ply,
                moves,
                from,
                alpha,
                beta,
                best,
                state,
            );
            &&& proper_score(result.score)
            &&& proper_table(result.state.table)
            &&& result.state.table.len() == state.table.len()
            &&& result.best_move is Some
        }),
    decreases depth, 1int, moves.len() - from,
{
    if from >= moves.len() {
        lemma_finish_is_proper(record, depth, entry_alpha, entry_beta, best, state);
    } else {
        let mv = moves[from];
        lemma_move_is_proper(record, history, depth, alpha, beta, ply, mv, from, state);
        let reply = search_move(record, history, depth, alpha, beta, ply, mv, from, state);
        let better = improve(best, side_of(record), mv, reply.score, reply.pv);
        assert(better.mv is Some && proper_score(better.score));
        let cut = match side_of(record) {
            Color::White => better.score >= beta,
            Color::Black => better.score <= alpha,
        };
        if cut {
            let after = SearchState {
                table: reply.state.table,
                killers: reply.state.killers.update(ply, remember(reply.state.killers[ply], mv)),
                nodes: reply.state.nodes,
            };
            lemma_finish_is_proper(record, depth, entry_alpha, entry_beta, better, after);
        } else {
            lemma_moves_are_proper(
                record,
                history,
                depth,
                entry_alpha,
                entry_beta,
                ply,
                moves,
                from + 1,
                match side_of(record) {
                    Color::White => max_score(alpha, better.score),
                    Color::Black => alpha,
                },
                match side_of(record) {
                    Color::White => beta,
                    Color::Black => min_score(beta, better.score),
                },
                better,
                reply.state,
            );
        }
    }
}

/// The search of the position after a move returns a proper score and
/// leaves a proper table.
pub proof fn lemma_move_is_proper(
    record: Seq<u16>,
    history: Seq<u64>,
    depth: int,
    alpha: i32,
    beta: i32,
    ply: int,
    mv: Move,
    index: int,
    state: SearchState,
)
    requires
        alpha < beta,
        0 <= ply < MAX_PLY,
        depth > 0,
        0 < state.table.len() <= usize::MAX,
        proper_table(state.table),
    ensures
        ({
            let result = search_move(record, history, depth, alpha, beta, ply, mv, index, state);
            &&& proper_score(result.score)
            &&& proper_table(result.state.table)
            &&& result.state.table.len() == state.table.len()
        }),
    decreases depth, 0int, 0int,
{
    let next = record_after(record, mv);
    let line = history.push(record_hash(next));
    let less = reduction(record, mv, index, depth);
    if less > 0 {
        lemma_search_is_proper(next, line, depth - 1 - less, alpha, beta, ply + 1, state);
        let shallow = search(next, line, depth - 1 - less, alpha, beta, ply + 1, state);
        lemma_search_is_proper(next, line, depth - 1, alpha, beta, ply + 1, shallow.state);
    } else {
        lemma_search_is_proper(next, line, depth - 1, alpha, beta, ply + 1, state);
    }
}

/// A search always returns a legal move where there is one to play. On a
/// position in which the game goes on, that has not been seen three times
/// and that the table does not settle, a search at least one half-move
/// deep returns a move, that move is a legal move of the position, and the
/// line returned begins with it.
pub proof fn lemma_search_finds_a_legal_move(
    record: Seq<u16>,
    history: Seq<u64>,
    depth: int,
    alpha: i32,
    beta: i32,
    ply: int,
    state: SearchState,
)
    requires
        alpha < beta,
        0 <= ply < MAX_PLY,
        depth > 0,
        0 < state.table.len() <= usize::MAX,
        proper_table(state.table),
        searches_moves(record, history, depth, alpha, beta, ply, state.table),
    ensures
        ({
            let result = search(record, history, depth, alpha, beta, ply, state);
            &&& result.best_move is Some
            &&& record_moves(record).contains(result.best_move->0)
            &&& result.pv.len() > 0
            &&& result.pv[0] == result.best_move->0
            &&& proper_score(result.score)
        }),
{
    lemma_search_is_proper(record, history, depth, alpha, beta, ply, state);
    lemma_search_returns_a_legal_move(record, history, depth, alpha, beta, ply, state);
}

/// Iterative deepening always finds a legal move. On a position in which
/// the game goes on and that has not been seen three times, begun with a
/// proper table that holds nothing for the position, the search knows a
/// move after every depth from the first on: a legal move of the position,
/// with its score, at the head of its line. The table stays proper.
pub proof fn lemma_deepening_finds_a_legal_move(
    record: Seq<u16>,
    history: Seq<u64>,
    table: Seq<Option<EntryView>>,
    depths: int,
)
    requires
        0 <= depths <= u8::MAX,
        0 < table.len() <= usize::MAX,
        proper_table(table),
        holds_nothing_for(table, record),
        status_of(record) == GameStatus::Ongoing,
        !threefold(record_hash(record), history),
    ensures
        proper_table(deepened(record, history, table, depths).table),
        deepened(record, history, table, depths).table.len() == table.len(),
        depths >= 1 ==> ({
            let known = deepened(record, history, table, depths);
            &&& known.best_move is Some
            &&& known.best_score is Some
            &&& record_moves(record).contains(known.best_move->0)
            &&& known.best_pv.len() > 0
            &&& known.best_pv[0] == known.best_move->0
        }),
    decreases depths,
{
    if depths > 0 {
        lemma_deepening_finds_a_legal_move(record, history, table, depths - 1);
        lemma_deepened_stores_within(record, history, table, depths - 1);
        let before = deepened(record, history, table, depths - 1);
        let state = SearchState { table: before.table, killers: no_killers(), nodes: before.nodes };
        let key = record_hash(record);
        lemma_slot_index_in_range(key, table.len() as usize);
        assert(slot_kept_or_within(
            table[slot_index(key, table.len())],
            before.table[slot_index(key, table.len())],
            depths - 1,
        ));
        assert(lookup(before.table, key) matches Some(entry) ==> entry.depth < depths);
        lemma_search_is_proper(record, history, depths, i32::MIN, i32::MAX, 0, state);
        lemma_search_finds_a_legal_move(record, history, depths, i32::MIN, i32::MAX, 0, state);
    }
}

/// A `go` command reports every depth that it completes and then the move
/// to play. On a position in which the game goes on and that has not been
/// seen three times, begun with a proper table that holds nothing for the
/// position, the report has one line for each completed depth and, if a
/// depth was completed, a last line that names a legal move of the
/// position.
pub proof fn lemma_go_reports_every_depth(
    record: Seq<u16>,
    history: Seq<u64>,
    table: Seq<Option<EntryView>>,
    depths: int,
    times: Seq<u64>,
)
    requires
        0 <= depths <= u8::MAX,
        0 < table.len() <= usize::MAX,
        proper_table(table),
        holds_nothing_for(table, record),
        status_of(record) == GameStatus::Ongoing,
        !threefold(record_hash(record), history),
    ensures
        progress_lines(record, history, table, depths, times).len() == depths,
        depths == 0 ==> go_lines(record, history, table, depths, times).len() == 0,
        depths >= 1 ==> ({
            let lines = go_lines(record, history, table, depths, times);
            let mv = deepened(record, history, table, depths).best_move->0;
            &&& lines.len() == depths + 1
            &&& lines.last() == bestmove_chars(record, mv)
            &&& record_moves(record).contains(mv)
        }),
    decreases depths,
{
    lemma_deepening_finds_a_legal_move(record, history, table, depths);
    if depths > 0 {
        lemma_go_reports_every_depth(record, history, table, depths - 1, times);
    }
}

} // verus!
