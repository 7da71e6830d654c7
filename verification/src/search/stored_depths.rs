//! What a search leaves in the table: nothing deeper than it searched.
//!
//! A node searched to some depth stores entries of that depth at most, so
//! a table that held nothing for a position still holds nothing that could
//! settle a deeper search of it. From this follows that iterative
//! deepening names only moves of the position it was asked about.

use vstd::prelude::*;
use crate::board::{record_after, record_hash, record_moves, side_of, status_of};
use crate::eval::eval_is_mate::MAX_PLY;
use crate::search::is_threefold::threefold;
use crate::search::killers::remember;
use crate::search::mini_max::{
    finish,
    improve,
    lemma_search_returns_a_legal_move,
    reduction,
    search,
    search_move,
    search_moves,
    settles,
    Best,
    SearchState,
};
use crate::search::order_moves::ordered_moves;
use crate::search::quiescence::{bump, max_score, min_score};
use crate::search::transposition_table::{
    lemma_slot_index_in_range,
    lookup,
    slot_index,
    EntryView,
};
use crate::types::{Color, GameStatus, Move};
use crate::uci::uci_command_go::{bestmove_chars, deepened, go_lines, no_killers, progress_lines};

verus! {

/// Whether a slot holds what it held before or an entry searched no deeper
/// than `depth`.
pub open spec fn slot_kept_or_within(before: Option<EntryView>, after: Option<EntryView>, depth: int) -> bool {
    after == before || (after is Some && after->0.depth <= depth)
}

/// Whether a table has as many slots as another and holds in each what the
/// other held or an entry searched no deeper than `depth`.
pub open spec fn kept_or_within(
    before: Seq<Option<EntryView>>,
    after: Seq<Option<EntryView>>,
    depth: int,
) -> bool {
    &&& after.len() == before.len()
    &&& forall|i: int| 0 <= i < before.len() ==> slot_kept_or_within(#[trigger] before[i], after[i], depth)
}

/// What was stored up to one depth and then up to another was stored up to
/// the deeper of the two.
pub proof fn lemma_kept_or_within_chain(
    first: Seq<Option<EntryView>>,
    second: Seq<Option<EntryView>>,
    third: Seq<Option<EntryView>>,
    shallow: int,
    depth: int,
)
    requires
        kept_or_within(first, second, shallow),
        kept_or_within(second, third, depth),
        shallow <= depth,
    ensures
        kept_or_within(first, third, depth),
{
    assert forall|i: int| 0 <= i < first.len() implies slot_kept_or_within(
        #[trigger] first[i],
        third[i],
        depth,
    ) by {
        assert(slot_kept_or_within(first[i], second[i], shallow));
        assert(slot_kept_or_within(second[i], third[i], depth));
    }
}

/// A node whose moves are done stores an entry of its own depth at most.
pub proof fn lemma_finish_stores_within(
    record: Seq<u16>,
    depth: int,
    entry_alpha: i32,
    entry_beta: i32,
    best: Best,
    state: SearchState,
)
    requires
        0 <= depth <= u8::MAX,
        0 < state.table.len() <= usize::MAX,
    ensures
        kept_or_within(
            state.table,
            finish(record, depth, entry_alpha, entry_beta, best, state).state.table,
            depth,
        ),
{
    lemma_slot_index_in_range(record_hash(record), state.table.len() as usize);
}

/// The search of a node to `depth` leaves every slot of the table as it
/// was or with an entry searched no deeper than `depth`.
pub proof fn lemma_search_stores_within(
    record: Seq<u16>,
    history: Seq<u64>,
    depth: int,
    alpha: i32,
    beta: i32,
    ply: int,
    state: SearchState,
)
    requires
        0 <= depth <= u8::MAX,
        0 < state.table.len() <= usize::MAX,
    ensures
        kept_or_within(
            state.table,
            search(record, history, depth, alpha, beta, ply, state).state.table,
            depth,
        ),
    decreases depth, 2int, 0int,
{
    let key = record_hash(record);
    let found = lookup(state.table, key);
    if found is Some && settles(found->0, depth, alpha, beta) {
    } else if status_of(record) != GameStatus::Ongoing {
    } else if threefold(key, history) {
    } else if depth <= 0 || ply >= MAX_PLY {
    } else {
        let first = match side_of(record) {
            Color::White => i32::MIN,
            Color::Black => i32::MAX,
        };
        lemma_moves_store_within(
            record,
            history,
            depth,
            alpha,
            beta,
            ply,
            ordered_moves(record, record_moves(record), state.killers[ply]),
            0,
            alpha,
            beta,
            Best { score: first, mv: None, pv: Seq::empty() },
            SearchState { table: state.table, killers: state.killers, nodes: bump(state.nodes) },
        );
    }
}

/// The search of a node's moves from index `from` on stores entries of the
/// node's depth at most.
pub proof fn lemma_moves_store_within(
    record: Seq<u16>,
    history: Seq<u64>,
    depth: int,
    entry_alpha: i32,
    entry_beta: i32,
    ply: int,
    moves: Seq<Move>,
    from: int,
    alpha: i32,
    beta: i32,
    best: Best,
    state: SearchState,
)
    requires
        0 <= depth <= u8::MAX,
        0 < state.table.len() <= usize::MAX,
    ensures
        kept_or_within(
            state.table,
            search_moves(
                record,
                history,
                depth,
                entry_alpha,
                entry_beta,
                ply,
                moves,
                from,
                alpha,
                beta,
                best,
                state,
            ).state.table,
            depth,
        ),
    decreases depth, 1int, moves.len() - from,
{
    if from < 0 || from >= moves.len() || depth <= 0 {
        lemma_finish_stores_within(record, depth, entry_alpha, entry_beta, best, state);
    } else {
        let mv = moves[from];
        lemma_move_stores_within(record, history, depth, alpha, beta, ply, mv, from, state);
        let reply = search_move(record, history, depth, alpha, beta, ply, mv, from, state);
        let better = improve(best, side_of(record), mv, reply.score, reply.pv);
        let cut = match side_of(record) {
            Color::White => better.score >= beta,
            Color::Black => better.score <= alpha,
        };
        if cut {
            let after = SearchState {
                table: reply.state.table,
                killers: reply.state.killers.update(ply, remember(reply.state.killers[ply], mv)),
                nodes: reply.state.nodes,
            };
            lemma_finish_stores_within(record, depth, entry_alpha, entry_beta, better, after);
            lemma_kept_or_within_chain(
                state.table,
                reply.state.table,
                finish(record, depth, entry_alpha, entry_beta, better, after).state.table,
                depth - 1,
                depth,
            );
        } else {
            let next_alpha = match side_of(record) {
                Color::White => max_score(alpha, better.score),
                Color::Black => alpha,
            };
            let next_beta = match side_of(record) {
                Color::White => beta,
                Color::Black => min_score(beta, better.score),
            };
            lemma_moves_store_within(
                record,
                history,
                depth,
                entry_alpha,
                entry_beta,
                ply,
                moves,
                from + 1,
                next_alpha,
                next_beta,
                better,
                reply.state,
            );
            lemma_kept_or_within_chain(
                state.table,
                reply.state.table,
                search_moves(
                    record,
                    history,
                    depth,
                    entry_alpha,
                    entry_beta,
                    ply,
                    moves,
                    from + 1,
                    next_alpha,
                    next_beta,
                    better,
                    reply.state,
                ).state.table,
                depth - 1,
                depth,
            );
        }
    }
}

/// The search of the position after a move stores entries of one depth
/// less than the node's at most.
pub proof fn lemma_move_stores_within(
    record: Seq<u16>,
    history: Seq<u64>,
    depth: int,
    alpha: i32,
    beta: i32,
    ply: int,
    mv: Move,
    index: int,
    state: SearchState,
)
    requires
        0 < depth <= u8::MAX,
        0 < state.table.len() <= usize::MAX,
    ensures
        kept_or_within(
            state.table,
            search_move(record, history, depth, alpha, beta, ply, mv, index, state).state.table,
            depth - 1,
        ),
    decreases depth, 0int, 0int,
{
    let next = record_after(record, mv);
    let line = history.push(record_hash(next));
    let less = reduction(record, mv, index, depth);
    if less > 0 {
        lemma_search_stores_within(next, line, depth - 1 - less, alpha, beta, ply + 1, state);
        let shallow = search(next, line, depth - 1 - less, alpha, beta, ply + 1, state);
        let promising = match side_of(record) {
            Color::White => shallow.score > alpha,
            Color::Black => shallow.score < beta,
        };
        if promising {
            lemma_search_stores_within(next, line, depth - 1, alpha, beta, ply + 1, shallow.state);
            lemma_kept_or_within_chain(
                state.table,
                shallow.state.table,
                search(next, line, depth - 1, alpha, beta, ply + 1, shallow.state).state.table,
                depth - 1 - less,
                depth - 1,
            );
        } else {
            lemma_kept_or_within_chain(
                state.table,
                state.table,
                shallow.state.table,
                depth - 1 - less,
                depth - 1,
            );
        }
    } else {
        lemma_search_stores_within(next, line, depth - 1, alpha, beta, ply + 1, state);
    }
}

/// Whether a table holds nothing for a position that could settle a search
/// of it: no entry under its hash that was searched one half-move deep or
/// deeper.
pub open spec fn holds_nothing_for(table: Seq<Option<EntryView>>, record: Seq<u16>) -> bool {
    lookup(table, record_hash(record)) matches Some(entry) ==> entry.depth == 0
}

/// Iterative deepening through `depths` depths leaves every slot of the
/// table as it was or with an entry searched no deeper than `depths`.
pub proof fn lemma_deepened_stores_within(
    record: Seq<u16>,
    history: Seq<u64>,
    table: Seq<Option<EntryView>>,
    depths: int,
)
    requires
        0 <= depths <= u8::MAX,
        0 < table.len() <= usize::MAX,
    ensures
        kept_or_within(table, deepened(record, history, table, depths).table, depths),
    decreases depths,
{
    if depths > 0 {
        lemma_deepened_stores_within(record, history, table, depths - 1);
        let before = deepened(record, history, table, depths - 1);
        let state = SearchState { table: before.table, killers: no_killers(), nodes: before.nodes };
        lemma_search_stores_within(record, history, depths, i32::MIN, i32::MAX, 0, state);
        lemma_kept_or_within_chain(
            table,
            before.table,
            search(record, history, depths, i32::MIN, i32::MAX, 0, state).state.table,
            depths - 1,
            depths,
        );
    }
}

/// Iterative deepening names only moves of the position it searches.
/// Begun with a table that holds nothing for the position, the best move
/// after any number of depths, if there is one, is a legal move of the
/// position, and the line that goes with it begins with it.
pub proof fn lemma_deepening_names_legal_moves(
    record: Seq<u16>,
    history: Seq<u64>,
    table: Seq<Option<EntryView>>,
    depths: int,
)
    requires
        0 <= depths <= u8::MAX,
        0 < table.len() <= usize::MAX,
        holds_nothing_for(table, record),
    ensures
        deepened(record, history, table, depths).best_move matches Some(mv) ==> {
            let line = deepened(record, history, table, depths).best_pv;
            record_moves(record).contains(mv) && line.len() > 0 && line[0] == mv
        },
    decreases depths,
{
    if depths > 0 {
        lemma_deepening_names_legal_moves(record, history, table, depths - 1);
        lemma_deepened_stores_within(record, history, table, depths - 1);
        let before = deepened(record, history, table, depths - 1);
        let state = SearchState { table: before.table, killers: no_killers(), nodes: before.nodes };
        let key = record_hash(record);
        lemma_slot_index_in_range(key, table.len() as usize);
        assert(slot_kept_or_within(
            table[slot_index(key, table.len())],
            before.table[slot_index(key, table.len())],
            depths - 1,
        ));
        assert(lookup(before.table, key) matches Some(entry) ==> entry.depth < depths);
        lemma_search_returns_a_legal_move(record, history, depths, i32::MIN, i32::MAX, 0, state);
    }
}

/// Where nothing has been found, nothing is reported: as long as iterative
/// deepening knows no move, a `go` command adds no line at all.
pub proof fn lemma_nothing_found_reports_nothing(
    record: Seq<u16>,
    history: Seq<u64>,
    table: Seq<Option<EntryView>>,
    depths: int,
    times: Seq<u64>,
)
    requires
        deepened(record, history, table, depths).best_move is None,
    ensures
        go_lines(record, history, table, depths, times) == Seq::<Seq<char>>::empty(),
{
    lemma_nothing_found_so_far(record, history, table, depths, times);
    assert(go_lines(record, history, table, depths, times) =~= Seq::<Seq<char>>::empty());
}

/// As long as iterative deepening knows no move, no depth is reported.
pub proof fn lemma_nothing_found_so_far(
    record: Seq<u16>,
    history: Seq<u64>,
    table: Seq<Option<EntryView>>,
    depths: int,
    times: Seq<u64>,
)
    requires
        deepened(record, history, table, depths).best_move is None,
    ensures
        progress_lines(record, history, table, depths, times) == Seq::<Seq<char>>::empty(),
    decreases depths,
{
    if depths > 0 {
        lemma_nothing_found_so_far(record, history, table, depths - 1, times);
    }
}

/// What a `go` command reports ends with the move to play, and that move
/// is a legal move of the position on the board: begun with a table that
/// holds nothing for the position, the last line names the best move
/// found, which is one of the position's moves.
pub proof fn lemma_go_names_a_legal_move(
    record: Seq<u16>,
    history: Seq<u64>,
    table: Seq<Option<EntryView>>,
    depths: int,
    times: Seq<u64>,
)
    requires
        0 <= depths <= u8::MAX,
        0 < table.len() <= usize::MAX,
        holds_nothing_for(table, record),
    ensures
        deepened(record, history, table, depths).best_move matches Some(mv) ==> {
            let lines = go_lines(record, history, table, depths, times);
            &&& record_moves(record).contains(mv)
            &&& lines.len() > 0
            &&& lines.last() == bestmove_chars(record, mv)
        },
{
    lemma_deepening_names_legal_moves(record, history, table, depths);
}

} // verus!
