//! Alpha-beta search: the recursive core.
//!
//! White looks for the highest score and Black for the lowest. What the
//! search returns is laid down by the function `search`, which follows one
//! node of the tree from the table lookup to the table store; `mini_max`
//! computes it, unless it is stopped on the way.

use vstd::prelude::*;
use cozy_chess::Board;
use std::collections::HashMap;
use std::sync::atomic::AtomicBool;
use crate::board::{
    board_record,
    generate_moves,
    hash,
    play,
    record_after,
    record_hash,
    record_moves,
    side_of,
    side_to_move,
    status,
    status_of,
};
use crate::eval::eval::{eval, eval_score};
use crate::eval::eval_is_mate::{is_mate_score, is_mate_value, MAX_PLY};
use crate::search::is_threefold::{is_threefold, threefold};
use crate::search::killers::{
    killer_lines,
    killers_at,
    killers_grown,
    lemma_killers_grown_by_one,
    lemma_killers_grown_chain,
    lemma_killers_grown_same,
    remember,
    remember_killer,
};
use crate::search::order_moves::{
    is_capture,
    lemma_ordered_moves,
    order_moves,
    ordered_moves,
    victim,
};
use crate::search::quiescence::{
    bump,
    max_score,
    min_score,
    quiesce,
    quiescence_node,
    stands_at_once,
};
use crate::search::stop::still_playing;
use crate::search::transposition_table::{
    lookup,
    kept_or_deepened,
    store,
    EntryView,
    TranspositionTable,
    TranspositionTableEntry,
    TranspositionTableEntryType,
};
use crate::types::{Color, GameStatus, Move};

verus! {

/// What a search carries from node to node: the transposition table, the
/// killer moves and the count of nodes.
pub struct SearchState {
    pub table: Seq<Option<EntryView>>,
    pub killers: Seq<Seq<Move>>,
    pub nodes: u64,
}

/// What the search of one node comes to: the score, the best move with the
/// line expected after it, and the state left behind.
pub struct SearchResult {
    pub score: i32,
    pub best_move: Option<Move>,
    pub pv: Seq<Move>,
    pub state: SearchState,
}

/// The best that the moves tried so far at a node have led to.
pub struct Best {
    pub score: i32,
    pub mv: Option<Move>,
    pub pv: Seq<Move>,
}

/// Whether a table entry settles a node searched to `depth` within a
/// window: it was searched at least as deep, the node is no leaf, and its
/// score is an exact one short of mate, a lower bound at or above beta, or
/// an upper bound at or below alpha.
pub open spec fn settles(entry: EntryView, depth: int, alpha: i32, beta: i32) -> bool {
    &&& entry.depth >= depth
    &&& depth > 0
    &&& match entry.entry_type {
        TranspositionTableEntryType::Exact => !is_mate_value(entry.score as int),
        TranspositionTableEntryType::LowerBound => entry.score >= beta,
        TranspositionTableEntryType::UpperBound => entry.score <= alpha,
    }
}

/// How a finished node's score is stored, judged by the window with which
/// the node was entered: a mate score as exact, a score at or below alpha
/// as an upper bound, one at or above beta as a lower bound, any other as
/// exact.
pub open spec fn bound_kind(score: i32, alpha: i32, beta: i32) -> TranspositionTableEntryType {
    if is_mate_value(score as int) {
        TranspositionTableEntryType::Exact
    } else if score <= alpha {
        TranspositionTableEntryType::UpperBound
    } else if score >= beta {
        TranspositionTableEntryType::LowerBound
    } else {
        TranspositionTableEntryType::Exact
    }
}

/// By how much the search of a move is first cut short: by nothing for the
/// first three moves, for captures and where fewer than two half-moves are
/// left; else by one, or by two from the eighth move on where three
/// half-moves are left.
pub open spec fn reduction(record: Seq<u16>, mv: Move, index: int, depth: int) -> int {
    if index >= 3 && !is_capture(record, mv) && depth >= 2 {
        if index >= 7 && depth >= 3 {
            2
        } else {
            1
        }
    } else {
        0
    }
}

/// The result of a node that is not searched further.
pub open spec fn leaf(score: i32, state: SearchState) -> SearchResult {
    SearchResult { score, best_move: None, pv: Seq::empty(), state }
}

/// The best so far after a move scored `score` with the line `pv`.
pub open spec fn improve(best: Best, side: Color, mv: Move, score: i32, pv: Seq<Move>) -> Best {
    let better = match side {
        Color::White => score > best.score,
        Color::Black => score < best.score,
    };
    if better {
        Best { score, mv: Some(mv), pv: seq![mv] + pv }
    } else {
        best
    }
}

/// The result of a node whose moves are done: the best found, stored in the
/// table under the node's hash if there is a best move.
pub open spec fn finish(
    record: Seq<u16>,
    depth: int,
    entry_alpha: i32,
    entry_beta: i32,
    best: Best,
    state: SearchState,
) -> SearchResult {
    let key = record_hash(record);
    let table = match best.mv {
        Some(mv) => store(
            state.table,
            key,
            EntryView {
                depth: depth as u8,
                score: best.score,
                best_move: best.mv,
                entry_type: bound_kind(best.score, entry_alpha, entry_beta),
                pv: best.pv,
                hash: key,
            },
        ),
        None => state.table,
    };
    SearchResult {
        score: best.score,
        best_move: best.mv,
        pv: best.pv,
        state: SearchState { table, killers: state.killers, nodes: state.nodes },
    }
}

/// The search of one node: `depth` half-moves deep within the window from
/// `alpha` to `beta`, `ply` half-moves from the root, after the positions
/// whose hashes are `history`.
///
/// In this order: a table entry that settles the node is returned as it is;
/// a finished game scores as the evaluator says; a position seen three
/// times before scores 0; at depth 0, and at `MAX_PLY`, the static score
/// stands if it is a mate score and quiescence search decides if not; else
/// the node is counted and its moves are searched in their order.
pub open spec fn search(
    record: Seq<u16>,
    history: Seq<u64>,
    depth: int,
    alpha: i32,
    beta: i32,
    ply: int,
    state: SearchState,
) -> SearchResult
    decreases depth, 2int, 0int,
{
    let key = record_hash(record);
    let found = lookup(state.table, key);
    if found is Some && settles(found->0, depth, alpha, beta) {
        SearchResult {
            score: found->0.score,
            best_move: found->0.best_move,
            pv: found->0.pv,
            state,
        }
    } else if status_of(record) != GameStatus::Ongoing {
        leaf(eval_score(record, ply) as i32, state)
    } else if threefold(key, history) {
        leaf(0, state)
    } else if depth <= 0 || ply >= MAX_PLY {
        let score = eval_score(record, ply) as i32;
        if is_mate_value(score as int) {
            leaf(score, state)
        } else {
            let quiet = quiesce(record, alpha, beta, ply, state.nodes);
            leaf(quiet.0, SearchState { table: state.table, killers: state.killers, nodes: quiet.1 })
        }
    } else {
        let first = match side_of(record) {
            Color::White => i32::MIN,
            Color::Black => i32::MAX,
        };
        search_moves(
            record,
            history,
            depth,
            alpha,
            beta,
            ply,
            ordered_moves(record, record_moves(record), state.killers[ply]),
            0,
            alpha,
            beta,
            Best { score: first, mv: None, pv: Seq::empty() },
            SearchState { table: state.table, killers: state.killers, nodes: bump(state.nodes) },
        )
    }
}

/// The search of a node's moves from index `from` on, with the window
/// narrowed to `alpha` and `beta` by the moves before. A move that reaches
/// the other end of the window ends the node and is remembered as a killer
/// move.
pub open spec fn search_moves(
    record: Seq<u16>,
    history: Seq<u64>,
    depth: int,
    entry_alpha: i32,
    entry_beta: i32,
    ply: int,
    moves: Seq<Move>,
    from: int,
    alpha: i32,
    beta: i32,
    best: Best,
    state: SearchState,
) -> SearchResult
    decreases depth, 1int, moves.len() - from,
{
    if from < 0 || from >= moves.len() || depth <= 0 {
        finish(record, depth, entry_alpha, entry_beta, best, state)
    } else {
        let mv = moves[from];
        let reply = search_move(record, history, depth, alpha, beta, ply, mv, from, state);
        let better = improve(best, side_of(record), mv, reply.score, reply.pv);
        let cut = match side_of(record) {
            Color::White => better.score >= beta,
            Color::Black => better.score <= alpha,
        };
        if cut {
            finish(
                record,
                depth,
                entry_alpha,
                entry_beta,
                better,
                SearchState {
                    table: reply.state.table,
                    killers: reply.state.killers.update(ply, remember(reply.state.killers[ply], mv)),
                    nodes: reply.state.nodes,
                },
            )
        } else {
            search_moves(
                record,
                history,
                depth,
                entry_alpha,
                entry_beta,
                ply,
                moves,
                from + 1,
                match side_of(record) {
                    Color::White => max_score(alpha, better.score),
                    Color::Black => alpha,
                },
                match side_of(record) {
                    Color::White => beta,
                    Color::Black => min_score(beta, better.score),
                },
                better,
                reply.state,
            )
        }
    }
}

/// The search of the position after one move. A move that is first searched
/// less deep is searched again to the full depth unless the first search
/// leaves it below alpha for White, above beta for Black.
pub open spec fn search_move(
    record: Seq<u16>,
    history: Seq<u64>,
    depth: int,
    alpha: i32,
    beta: i32,
    ply: int,
    mv: Move,
    index: int,
    state: SearchState,
) -> SearchResult
    decreases depth, 0int, 0int,
{
    let next = record_after(record, mv);
    let line = history.push(record_hash(next));
    let less = reduction(record, mv, index, depth);
    if depth <= 0 {
        leaf(0, state)
    } else if less > 0 {
        let shallow = search(next, line, depth - 1 - less, alpha, beta, ply + 1, state);
        let promising = match side_of(record) {
            Color::White => shallow.score > alpha,
            Color::Black => shallow.score < beta,
        };
        if promising {
            search(next, line, depth - 1, alpha, beta, ply + 1, shallow.state)
        } else {
            shallow
        }
    } else {
        search(next, line, depth - 1, alpha, beta, ply + 1, state)
    }
}

/// The state that a table, the killer moves and a node count stand for.
pub open spec fn state_of(
    table: &TranspositionTable,
    killers: &HashMap<u8, Vec<Move>>,
    nodes: u64,
) -> SearchState {
    SearchState { table: table.slots(), killers: killer_lines(killers@), nodes }
}

/// Whether the search of a node comes to its result without searching a
/// move and without answering a capture: the table settles the node, or
/// the game is finished there, or the position has been seen three times,
/// or the node lies at the horizon and its static score is a mate score or
/// quiescence search stands at once.
pub open spec fn settled_at_once(
    record: Seq<u16>,
    history: Seq<u64>,
    depth: int,
    alpha: i32,
    beta: i32,
    ply: int,
    table: Seq<Option<EntryView>>,
) -> bool {
    let found = lookup(table, record_hash(record));
    ||| found is Some && settles(found->0, depth, alpha, beta)
    ||| status_of(record) != GameStatus::Ongoing
    ||| threefold(record_hash(record), history)
    ||| (depth <= 0 || ply >= MAX_PLY) && (is_mate_value(eval_score(record, ply) as i32 as int)
        || stands_at_once(record, alpha, beta, ply))
}

/// Whether what a search handed back is the given result and state.
pub open spec fn agrees(
    score: i32,
    best_move: Option<Move>,
    pv: Seq<Move>,
    state: SearchState,
    expected: SearchResult,
) -> bool {
    &&& score == expected.score
    &&& best_move == expected.best_move
    &&& pv == expected.pv
    &&& state == expected.state
}

/// A position that has been on the board three times scores 0, whatever
/// stands on it, as long as the game goes on there and the table holds no
/// entry that settles the node.
pub proof fn lemma_repetition_scores_zero(
    record: Seq<u16>,
    history: Seq<u64>,
    depth: int,
    alpha: i32,
    beta: i32,
    ply: int,
    state: SearchState,
)
    requires
        threefold(record_hash(record), history),
        status_of(record) == GameStatus::Ongoing,
        !(lookup(state.table, record_hash(record)) is Some && settles(
            lookup(state.table, record_hash(record))->0,
            depth,
            alpha,
            beta,
        )),
    ensures
        search(record, history, depth, alpha, beta, ply, state) == leaf(0, state),
{
}

/// The best move that the moves of a node lead to is one of those moves,
/// and the line that goes with it begins with it.
pub proof fn lemma_best_move_is_listed(
    record: Seq<u16>,
    history: Seq<u64>,
    depth: int,
    entry_alpha: i32,
    entry_beta: i32,
    ply: int,
    moves: Seq<Move>,
    from: int,
    alpha: i32,
    beta: i32,
    best: Best,
    state: SearchState,
)
    requires
        best.mv matches Some(mv) ==> moves.contains(mv) && best.pv.len() > 0 && best.pv[0] == mv,
    ensures
        search_moves(
            record,
            history,
            depth,
            entry_alpha,
            entry_beta,
            ply,
            moves,
            from,
            alpha,
            beta,
            best,
            state,
        ).best_move matches Some(mv) ==> {
            let result = search_moves(
                record,
                history,
                depth,
                entry_alpha,
                entry_beta,
                ply,
                moves,
                from,
                alpha,
                beta,
                best,
                state,
            );
            moves.contains(mv) && result.pv.len() > 0 && result.pv[0] == mv
        },
    decreases moves.len() - from,
{
    if from < 0 || from >= moves.len() || depth <= 0 {
    } else {
        let mv = moves[from];
        let reply = search_move(record, history, depth, alpha, beta, ply, mv, from, state);
        let better = improve(best, side_of(record), mv, reply.score, reply.pv);
        assert(better.mv matches Some(m) ==> moves.contains(m) && better.pv.len() > 0 && better.pv[0]
            == m);
        let cut = match side_of(record) {
            Color::White => better.score >= beta,
            Color::Black => better.score <= alpha,
        };
        if !cut {
            lemma_best_move_is_listed(
                record,
                history,
                depth,
                entry_alpha,
                entry_beta,
                ply,
                moves,
                from + 1,
                match side_of(record) {
                    Color::White => max_score(alpha, better.score),
                    Color::Black => alpha,
                },
                match side_of(record) {
                    Color::White => beta,
                    Color::Black => min_score(beta, better.score),
                },
                better,
                reply.state,
            );
        }
    }
}

/// Unless the table settles the node, the move that a search returns is a
/// legal move of the position searched, and the line returned begins with it.
pub proof fn lemma_search_returns_a_legal_move(
    record: Seq<u16>,
    history: Seq<u64>,
    depth: int,
    alpha: i32,
    beta: i32,
    ply: int,
    state: SearchState,
)
    requires
        !(lookup(state.table, record_hash(record)) is Some && settles(
            lookup(state.table, record_hash(record))->0,
            depth,
            alpha,
            beta,
        )),
    ensures
        search(record, history, depth, alpha, beta, ply, state).best_move matches Some(mv) ==> {
            let result = search(record, history, depth, alpha, beta, ply, state);
            record_moves(record).contains(mv) && result.pv.len() > 0 && result.pv[0] == mv
        },
{
    let key = record_hash(record);
    if status_of(record) != GameStatus::Ongoing {
    } else if threefold(key, history) {
    } else if depth <= 0 || ply >= MAX_PLY {
    } else {
        let first = match side_of(record) {
            Color::White => i32::MIN,
            Color::Black => i32::MAX,
        };
        let moves = ordered_moves(record, record_moves(record), state.killers[ply]);
        lemma_ordered_moves(record, record_moves(record), state.killers[ply]);
        lemma_best_move_is_listed(
            record,
            history,
            depth,
            alpha,
            beta,
            ply,
            moves,
            0,
            alpha,
            beta,
            Best { score: first, mv: None, pv: Seq::empty() },
            SearchState { table: state.table, killers: state.killers, nodes: bump(state.nodes) },
        );
        let result = search(record, history, depth, alpha, beta, ply, state);
        if result.best_move is Some {
            let mv = result.best_move->0;
            assert(moves.contains(mv));
            let k = choose|k: int| 0 <= k < moves.len() && moves[k] == mv;
            assert(record_moves(record).contains(moves[k]));
        }
    }
}

/// A copy of a list.
pub fn copy_list<T: Copy>(list: &Vec<T>) -> (copy: Vec<T>)
    ensures
        copy@ == list@,
{
    let mut copy: Vec<T> = Vec::new();
    let mut i: usize = 0;
    while i < list.len()
        invariant
            i <= list@.len(),
            copy@ == list@.take(i as int),
        decreases list@.len() - i,
    {
        copy.push(list[i]);
        assert(copy@ =~= list@.take(i + 1));
        i = i + 1;
    }
    assert(copy@ =~= list@);
    copy
}

/// Looks a position up in the table and hands back what the table holds
/// for it if that settles a search to `depth` within the window.
fn probe(
    transposition_table: &TranspositionTable,
    key: u64,
    depth: u8,
    alpha: i32,
    beta: i32,
) -> (hit: Option<(i32, Option<Move>, Vec<Move>)>)
    requires
        transposition_table.wf(),
    ensures
        match hit {
            Some(held) => {
                let found = lookup(transposition_table.slots(), key);
                &&& found is Some
                &&& settles(found->0, depth as int, alpha, beta)
                &&& held.0 == found->0.score
                &&& held.1 == found->0.best_move
                &&& held.2@ == found->0.pv
            },
            None => {
                let found = lookup(transposition_table.slots(), key);
                !(found is Some && settles(found->0, depth as int, alpha, beta))
            },
        },
{
    if let Some(entry) = transposition_table.get(key) {
        if entry.depth >= depth && depth > 0 {
            let usable = match entry.entry_type {
                TranspositionTableEntryType::Exact => !is_mate_score(entry.score),
                TranspositionTableEntryType::LowerBound => entry.score >= beta,
                TranspositionTableEntryType::UpperBound => entry.score <= alpha,
            };
            if usable {
                return Some((entry.score, entry.best_move, copy_list(&entry.pv)));
            }
        }
    }
    None
}

/// Stores the outcome of a node's moves in the table, if there is a best move.
fn store_best(
    transposition_table: &mut TranspositionTable,
    key: u64,
    depth: u8,
    entry_alpha: i32,
    entry_beta: i32,
    best_score: i32,
    best_move: Option<Move>,
    best_pv: &Vec<Move>,
)
    requires
        old(transposition_table).wf(),
    ensures
        final(transposition_table).wf(),
        kept_or_deepened(old(transposition_table).slots(), final(transposition_table).slots()),
        final(transposition_table).slots() == (match best_move {
            Some(mv) => store(
                old(transposition_table).slots(),
                key,
                EntryView {
                    depth,
                    score: best_score,
                    best_move,
                    entry_type: bound_kind(best_score, entry_alpha, entry_beta),
                    pv: best_pv@,
                    hash: key,
                },
            ),
            None => old(transposition_table).slots(),
        }),
{
    let entry_type = if is_mate_score(best_score) {
        TranspositionTableEntryType::Exact
    } else if best_score <= entry_alpha {
        TranspositionTableEntryType::UpperBound
    } else if best_score >= entry_beta {
        TranspositionTableEntryType::LowerBound
    } else {
        TranspositionTableEntryType::Exact
    };
    if let Some(mv) = best_move {
        transposition_table.insert(
            key,
            TranspositionTableEntry {
                depth,
                score: best_score,
                best_move: Some(mv),
                entry_type,
                pv: copy_list(best_pv),
                hash: key,
            },
        );
    }
}

/// Searches the position after one move, first less deep where the move
/// comes late in the order.
fn search_child(
    board: &Board,
    transposition_table: &mut TranspositionTable,
    hash_history: &Vec<u64>,
    depth: u8,
    alpha: i32,
    beta: i32,
    distance_from_root: u8,
    mv: Move,
    index: usize,
    is_playing: &AtomicBool,
    node_count: &mut u64,
    killer_moves: &mut HashMap<u8, Vec<Move>>,
) -> (reply: (i32, bool, Vec<Move>))
    requires
        old(transposition_table).wf(),
        depth > 0,
        distance_from_root < MAX_PLY,
        mv.to < 64,
        record_moves(board_record(*board)).contains(mv),
    ensures
        final(transposition_table).wf(),
        kept_or_deepened(old(transposition_table).slots(), final(transposition_table).slots()),
        *old(node_count) <= *final(node_count),
        killers_grown(
            killer_lines(old(killer_moves)@),
            killer_lines(final(killer_moves)@),
            distance_from_root + 1,
        ),
        !reply.1 ==> agrees(
            reply.0,
            None,
            reply.2@,
            state_of(final(transposition_table), final(killer_moves), *final(node_count)),
            SearchResult {
                best_move: None,
                ..search_move(
                    board_record(*board),
                    hash_history@,
                    depth as int,
                    alpha,
                    beta,
                    distance_from_root as int,
                    mv,
                    index as int,
                    state_of(old(transposition_table), old(killer_moves), *old(node_count)),
                )
            },
        ),
    decreases depth, 0int, 0int,
{
    let maximizing = side_to_move(board) == Color::White;
    let is_capture = victim(board, &mv).is_some();
    let new_board = play(board, mv);
    let mut new_hash_history = copy_list(hash_history);
    new_hash_history.push(hash(&new_board));
    let ghost lines = killer_lines(killer_moves@);
    proof {
        lemma_killers_grown_same(lines, distance_from_root + 1);
    }

    if index >= 3 && !is_capture && depth >= 2 {
        let reduce_depth: u8 = if index >= 7 && depth >= 3 {
            2
        } else {
            1
        };
        let (new_score, _, new_early_stop, new_child_pv) = mini_max(
            &new_board,
            transposition_table,
            copy_list(&new_hash_history),
            depth - 1 - reduce_depth,
            alpha,
            beta,
            distance_from_root + 1,
            is_playing,
            node_count,
            killer_moves,
        );
        if new_early_stop {
            return (0, true, Vec::new());
        }
        let needs_full_search = if maximizing {
            new_score > alpha
        } else {
            new_score < beta
        };
        if !needs_full_search {
            return (new_score, false, new_child_pv);
        }
    }
    let ghost between = killer_lines(killer_moves@);
    let (new_score, _, new_early_stop, new_child_pv) = mini_max(
        &new_board,
        transposition_table,
        new_hash_history,
        depth - 1,
        alpha,
        beta,
        distance_from_root + 1,
        is_playing,
        node_count,
        killer_moves,
    );
    proof {
        lemma_killers_grown_chain(
            lines,
            between,
            killer_lines(killer_moves@),
            distance_from_root + 1,
            distance_from_root + 1,
        );
    }
    if new_early_stop {
        return (0, true, Vec::new());
    }
    (new_score, false, new_child_pv)
}

/// Searches a position `depth` half-moves deep within the window from
/// `alpha` to `beta`. Hands back the score, the best move, whether the
/// search was stopped, and the line expected after the best move.
///
/// A search that finds the flag lowered at any node stops at once and says
/// so; what it has stored in the table until then stays there. A search
/// that is not stopped returns what `search` lays down.
pub fn mini_max(
    board: &Board,
    transposition_table: &mut TranspositionTable,
    hash_history: Vec<u64>,
    depth: u8,
    alpha: i32,
    beta: i32,
    distance_from_root: u8,
    is_playing: &AtomicBool,
    node_count: &mut u64,
    killer_moves: &mut HashMap<u8, Vec<Move>>,
) -> (result: (i32, Option<Move>, bool, Vec<Move>))
    requires
        old(transposition_table).wf(),
    ensures
        final(transposition_table).wf(),
        kept_or_deepened(old(transposition_table).slots(), final(transposition_table).slots()),
        *old(node_count) <= *final(node_count),
        killers_grown(
            killer_lines(old(killer_moves)@),
            killer_lines(final(killer_moves)@),
            distance_from_root as int,
        ),
        result.2 ==> result.0 == 0 && result.1 is None && result.3@.len() == 0,
        !result.2 ==> agrees(
            result.0,
            result.1,
            result.3@,
            state_of(final(transposition_table), final(killer_moves), *final(node_count)),
            search(
                board_record(*board),
                hash_history@,
                depth as int,
                alpha,
                beta,
                distance_from_root as int,
                state_of(old(transposition_table), old(killer_moves), *old(node_count)),
            ),
        ),
    decreases depth, 3int, 0int,
{
    let playing = still_playing(is_playing);
    mini_max_after_reading(
        board,
        transposition_table,
        hash_history,
        depth,
        alpha,
        beta,
        distance_from_root,
        playing,
        is_playing,
        node_count,
        killer_moves,
    )
}

/// The search of one node once the flag has been read there, as `playing`.
///
/// With the flag lowered the search stops at once: nothing is stored,
/// counted or remembered. With the flag raised, a node that the table
/// settles, a finished game, a position seen three times and a node at the
/// horizon that needs no capture answered come to their result whatever the
/// flag does later. Where moves are searched or captures answered, each
/// reads the flag anew, and a lowered flag stops the whole search.
pub fn mini_max_after_reading(
    board: &Board,
    transposition_table: &mut TranspositionTable,
    hash_history: Vec<u64>,
    depth: u8,
    alpha: i32,
    beta: i32,
    distance_from_root: u8,
    playing: bool,
    is_playing: &AtomicBool,
    node_count: &mut u64,
    killer_moves: &mut HashMap<u8, Vec<Move>>,
) -> (result: (i32, Option<Move>, bool, Vec<Move>))
    requires
        old(transposition_table).wf(),
    ensures
        !playing ==> result.2,
        !playing ==> final(transposition_table).slots() == old(transposition_table).slots(),
        !playing ==> *final(node_count) == *old(node_count),
        !playing ==> final(killer_moves)@ == old(killer_moves)@,
        playing && settled_at_once(
            board_record(*board),
            hash_history@,
            depth as int,
            alpha,
            beta,
            distance_from_root as int,
            old(transposition_table).slots(),
        ) ==> !result.2,
        final(transposition_table).wf(),
        kept_or_deepened(old(transposition_table).slots(), final(transposition_table).slots()),
        *old(node_count) <= *final(node_count),
        killers_grown(
            killer_lines(old(killer_moves)@),
            killer_lines(final(killer_moves)@),
            distance_from_root as int,
        ),
        result.2 ==> result.0 == 0 && result.1 is None && result.3@.len() == 0,
        !result.2 ==> agrees(
            result.0,
            result.1,
            result.3@,
            state_of(final(transposition_table), final(killer_moves), *final(node_count)),
            search(
                board_record(*board),
                hash_history@,
                depth as int,
                alpha,
                beta,
                distance_from_root as int,
                state_of(old(transposition_table), old(killer_moves), *old(node_count)),
            ),
        ),
    decreases depth, 2int, 0int,
{
    proof {
        lemma_killers_grown_same(killer_lines(killer_moves@), distance_from_root as int);
    }
    if !playing {
        return (0, None, true, Vec::new());
    }
    let ghost record = board_record(*board);
    let ghost entry_state = state_of(transposition_table, killer_moves, *node_count);
    let ghost goal = search(
        record,
        hash_history@,
        depth as int,
        alpha,
        beta,
        distance_from_root as int,
        entry_state,
    );

    let key = hash(board);
    if let Some(held) = probe(transposition_table, key, depth, alpha, beta) {
        return (held.0, held.1, false, held.2);
    }
    if status(board) != GameStatus::Ongoing {
        return (eval(board, distance_from_root), None, false, Vec::new());
    }
    if is_threefold(key, hash_history.as_slice()) {
        return (0, None, false, Vec::new());
    }
    if depth == 0 || distance_from_root >= MAX_PLY {
        let score = eval(board, distance_from_root);
        if is_mate_score(score) {
            return (score, None, false, Vec::new());
        }
        return match quiescence_node(
            board,
            alpha,
            beta,
            distance_from_root,
            playing,
            is_playing,
            node_count,
        ) {
            Some(score) => (score, None, false, Vec::new()),
            None => (0, None, true, Vec::new()),
        };
    }
    let maximizing = side_to_move(board) == Color::White;
    if *node_count < u64::MAX {
        *node_count = *node_count + 1;
    }
    let legal = generate_moves(board);
    let killers = killers_at(killer_moves, distance_from_root);
    proof {
        lemma_ordered_moves(record, legal@, killers@);
    }
    let moves = order_moves(board, legal, &killers);

    let mut low = alpha;
    let mut high = beta;
    let mut best_score: i32 = if maximizing {
        i32::MIN
    } else {
        i32::MAX
    };
    let mut best_move: Option<Move> = None;
    let mut best_pv: Vec<Move> = Vec::new();

    let mut i: usize = 0;
    while i < moves.len()
        invariant
            i <= moves@.len(),
            transposition_table.wf(),
            kept_or_deepened(old(transposition_table).slots(), transposition_table.slots()),
            *old(node_count) <= *node_count,
            killers_grown(
                killer_lines(old(killer_moves)@),
                killer_lines(killer_moves@),
                distance_from_root as int,
            ),
            playing,
            !settled_at_once(
                record,
                hash_history@,
                depth as int,
                alpha,
                beta,
                distance_from_root as int,
                old(transposition_table).slots(),
            ),
            depth > 0,
            distance_from_root < MAX_PLY,
            record == board_record(*board),
            key == record_hash(record),
            maximizing == (side_of(record) == Color::White),
            forall|k: int|
                0 <= k < moves@.len() ==> (#[trigger] moves@[k]).to < 64 && record_moves(record).contains(
                    moves@[k],
                ),
            search_moves(
                record,
                hash_history@,
                depth as int,
                alpha,
                beta,
                distance_from_root as int,
                moves@,
                i as int,
                low,
                high,
                Best { score: best_score, mv: best_move, pv: best_pv@ },
                state_of(transposition_table, killer_moves, *node_count),
            ) == goal,
            goal == search(
                board_record(*board),
                hash_history@,
                depth as int,
                alpha,
                beta,
                distance_from_root as int,
                state_of(old(transposition_table), old(killer_moves), *old(node_count)),
            ),
        decreases moves@.len() - i,
    {
        let mv = moves[i];
        let ghost lines_before = killer_lines(killer_moves@);
        let (score, early_stop, mut child_pv) = search_child(
            board,
            transposition_table,
            &hash_history,
            depth,
            low,
            high,
            distance_from_root,
            mv,
            i,
            is_playing,
            node_count,
            killer_moves,
        );
        proof {
            lemma_killers_grown_chain(
                killer_lines(old(killer_moves)@),
                lines_before,
                killer_lines(killer_moves@),
                distance_from_root as int,
                distance_from_root + 1,
            );
        }
        if early_stop {
            return (0, None, true, Vec::new());
        }
        let ghost reply_state = state_of(transposition_table, killer_moves, *node_count);
        let ghost before = Best { score: best_score, mv: best_move, pv: best_pv@ };
        let ghost reply_line = child_pv@;
        let better = if maximizing {
            score > best_score
        } else {
            score < best_score
        };
        if better {
            let ghost reply_pv = child_pv@;
            let mut line: Vec<Move> = Vec::new();
            line.push(mv);
            line.append(&mut child_pv);
            assert(line@ =~= seq![mv] + reply_pv);
            best_score = score;
            best_move = Some(mv);
            best_pv = line;
        }
        let cut = if maximizing {
            best_score >= high
        } else {
            best_score <= low
        };
        if cut {
            remember_killer(killer_moves, distance_from_root, mv);
            proof {
                lemma_killers_grown_by_one(reply_state.killers, distance_from_root as int, mv);
                lemma_killers_grown_chain(
                    killer_lines(old(killer_moves)@),
                    reply_state.killers,
                    killer_lines(killer_moves@),
                    distance_from_root as int,
                    distance_from_root as int,
                );
            }
            store_best(transposition_table, key, depth, alpha, beta, best_score, best_move, &best_pv);
            proof {
                let now = Best { score: best_score, mv: best_move, pv: best_pv@ };
                assert(now == improve(before, side_of(record), mv, score, reply_line));
                let marked = SearchState {
                    table: reply_state.table,
                    killers: reply_state.killers.update(
                        distance_from_root as int,
                        remember(reply_state.killers[distance_from_root as int], mv),
                    ),
                    nodes: reply_state.nodes,
                };
                assert(goal == finish(record, depth as int, alpha, beta, now, marked));
            }
            return (best_score, best_move, false, best_pv);
        }
        if maximizing {
            if best_score > low {
                low = best_score;
            }
        } else {
            if best_score < high {
                high = best_score;
            }
        }
        i = i + 1;
    }
    store_best(transposition_table, key, depth, alpha, beta, best_score, best_move, &best_pv);
    (best_score, best_move, false, best_pv)
}

} // verus!
