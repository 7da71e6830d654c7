//! The search: alpha-beta with a transposition table, quiescence at the
//! horizon, move ordering and repetition detection.

pub mod found_moves;
pub mod is_threefold;
pub mod killers;
pub mod mini_max;
pub mod one_ply;
pub mod order_moves;
pub mod quiescence;
pub mod stop;
pub mod stored_depths;
pub mod transposition_table;

use vstd::prelude::*;
use vstd::string::StringExecFns;
use cozy_chess::Board;
use std::collections::HashMap;
use std::sync::atomic::AtomicBool;
use std::time::Instant;
use crate::board::{
    board_record,
    generate_moves,
    hash,
    play,
    record_after,
    record_hash,
    record_moves,
    side_of,
    side_to_move,
    status,
    status_of,
};
use crate::clock::{elapsed_ms, now};
use crate::eval::{eval, plain_score};
use crate::search::quiescence::{bump, max_score, min_score};
use crate::search::stop::still_playing;
use crate::text::{
    decimal,
    move_chars,
    push_decimal,
    push_move,
    push_signed,
    signed_decimal,
    texts,
};
use crate::types::{Color, GameStatus, Move};

verus! {

/// A score with the move that leads to it.
#[derive(Clone, Copy, Debug, PartialEq, Eq, Structural)]
pub struct MoveScore {
    pub score: i32,
    pub mv: Option<Move>,
}

/// How a cached score relates to the true value of its position.
#[derive(Clone, Copy, Debug, PartialEq, Eq, Structural)]
pub enum SearchBound {
    Exact,
    Lower,
    Upper,
}

/// A cached search result.
#[derive(Clone, Copy, Debug, PartialEq, Eq, Structural)]
pub struct CacheEntry {
    pub val: i32,
    pub depth: u8,
    pub bound: SearchBound,
    pub chess_move: Option<Move>,
}

/// What the plain search carries from node to node: its cache and the
/// count of nodes.
pub struct PlainState {
    pub cache: Map<u64, CacheEntry>,
    pub nodes: u64,
}

/// What the plain search of one node comes to.
pub struct PlainResult {
    pub best: MoveScore,
    pub state: PlainState,
}

/// The cache entry that counts for a node searched to `depth`: the one
/// under the node's hash, if it was searched at least as deep and the node
/// is no leaf.
pub open spec fn cached(cache: Map<u64, CacheEntry>, key: u64, depth: int) -> Option<CacheEntry> {
    if cache.contains_key(key) && cache[key].depth >= depth && depth > 0 {
        Some(cache[key])
    } else {
        None
    }
}

/// The lower end of the window after the cache was asked.
pub open spec fn cached_alpha(found: Option<CacheEntry>, alpha: i32) -> i32 {
    match found {
        Some(entry) => if entry.bound == SearchBound::Lower {
            max_score(alpha, entry.val)
        } else {
            alpha
        },
        None => alpha,
    }
}

/// The upper end of the window after the cache was asked.
pub open spec fn cached_beta(found: Option<CacheEntry>, beta: i32) -> i32 {
    match found {
        Some(entry) => if entry.bound == SearchBound::Upper {
            min_score(beta, entry.val)
        } else {
            beta
        },
        None => beta,
    }
}

/// How a node's score is cached, judged by the window with which the node
/// was entered.
pub open spec fn plain_bound(score: i32, alpha: i32, beta: i32) -> SearchBound {
    if score <= alpha {
        SearchBound::Upper
    } else if score >= beta {
        SearchBound::Lower
    } else {
        SearchBound::Exact
    }
}

/// The result of a node whose moves are done: the best found, cached under
/// the node's hash.
pub open spec fn plain_finish(
    record: Seq<u16>,
    depth: int,
    entry_alpha: i32,
    entry_beta: i32,
    best: MoveScore,
    state: PlainState,
) -> PlainResult {
    PlainResult {
        best,
        state: PlainState {
            cache: state.cache.insert(
                record_hash(record),
                CacheEntry {
                    val: best.score,
                    depth: depth as u8,
                    bound: plain_bound(best.score, entry_alpha, entry_beta),
                    chess_move: best.mv,
                },
            ),
            nodes: state.nodes,
        },
    }
}

/// The plain search of one node: alpha-beta over all legal moves in the
/// order in which they are generated, with a cache and without quiescence.
/// Every node is counted. A cached exact score is returned as it is, a
/// cached bound narrows the window and is returned if it closes it; a leaf
/// and a finished game score by material and mate.
pub open spec fn plain_search(record: Seq<u16>, depth: int, alpha: i32, beta: i32, state: PlainState) -> PlainResult
    decreases depth, 1int, 0int,
{
    let counted = PlainState { cache: state.cache, nodes: bump(state.nodes) };
    let found = cached(state.cache, record_hash(record), depth);
    let low = cached_alpha(found, alpha);
    let high = cached_beta(found, beta);
    if found is Some && (found->0.bound == SearchBound::Exact || low >= high) {
        PlainResult {
            best: MoveScore { score: found->0.val, mv: found->0.chess_move },
            state: counted,
        }
    } else if depth <= 0 || status_of(record) != GameStatus::Ongoing {
        PlainResult {
            best: MoveScore { score: plain_score(record, 0) as i32, mv: None },
            state: counted,
        }
    } else {
        plain_moves(
            record,
            depth,
            alpha,
            beta,
            record_moves(record),
            0,
            low,
            high,
            MoveScore {
                score: match side_of(record) {
                    Color::White => i32::MIN,
                    Color::Black => i32::MAX,
                },
                mv: None,
            },
            counted,
        )
    }
}

/// The plain search of a node's moves from index `from` on.
pub open spec fn plain_moves(
    record: Seq<u16>,
    depth: int,
    entry_alpha: i32,
    entry_beta: i32,
    moves: Seq<Move>,
    from: int,
    alpha: i32,
    beta: i32,
    best: MoveScore,
    state: PlainState,
) -> PlainResult
    decreases depth, 0int, moves.len() - from,
{
    if from < 0 || from >= moves.len() || depth <= 0 {
        plain_finish(record, depth, entry_alpha, entry_beta, best, state)
    } else {
        let mv = moves[from];
        let reply = plain_search(record_after(record, mv), depth - 1, alpha, beta, state);
        let score = reply.best.score;
        match side_of(record) {
            Color::White => {
                let better = if score > best.score {
                    MoveScore { score, mv: Some(mv) }
                } else {
                    best
                };
                if score >= beta {
                    plain_finish(record, depth, entry_alpha, entry_beta, better, reply.state)
                } else {
                    plain_moves(
                        record,
                        depth,
                        entry_alpha,
                        entry_beta,
                        moves,
                        from + 1,
                        max_score(alpha, score),
                        beta,
                        better,
                        reply.state,
                    )
                }
            },
            Color::Black => {
                let better = if score < best.score {
                    MoveScore { score, mv: Some(mv) }
                } else {
                    best
                };
                if score <= alpha {
                    plain_finish(record, depth, entry_alpha, entry_beta, better, reply.state)
                } else {
                    plain_moves(
                        record,
                        depth,
                        entry_alpha,
                        entry_beta,
                        moves,
                        from + 1,
                        alpha,
                        min_score(beta, score),
                        better,
                        reply.state,
                    )
                }
            },
        }
    }
}

/// What iterative deepening has come to after `depths` completed depths:
/// nothing found and nothing cached before the first, else the plain search
/// to that depth with the widest window on the state left by the depths
/// before.
pub open spec fn plain_deepening(record: Seq<u16>, depths: int) -> PlainResult
    decreases depths,
{
    if depths <= 0 {
        PlainResult {
            best: MoveScore { score: 0, mv: None },
            state: PlainState { cache: Map::empty(), nodes: 0 },
        }
    } else {
        plain_search(record, depths, i32::MIN, i32::MAX, plain_deepening(record, depths - 1).state)
    }
}

/// Nodes per second from a node count and the milliseconds passed, capped
/// at the largest `u64`; 0 before the first millisecond has passed.
pub open spec fn plain_speed(nodes: u64, elapsed: u128) -> u64 {
    if elapsed == 0 {
        0
    } else if nodes * 1000 / (elapsed as int) > u64::MAX {
        u64::MAX
    } else {
        (nodes * 1000 / (elapsed as int)) as u64
    }
}

/// The milliseconds passed as far as a `u64` holds them.
pub open spec fn held_ms(elapsed: u128) -> u64 {
    if elapsed > u64::MAX {
        u64::MAX
    } else {
        elapsed as u64
    }
}

/// The line that reports a depth of the plain search.
pub open spec fn plain_info_chars(depth: u8, best: MoveScore, nodes: u64, elapsed: u128) -> Seq<char> {
    "info depth "@ + decimal(depth as nat) + " score cp "@ + signed_decimal(best.score as int)
        + " nodes "@ + decimal(nodes as nat) + " nps "@ + decimal(plain_speed(nodes, elapsed) as nat)
        + " time "@ + decimal(held_ms(elapsed) as nat) + " bestmove "@ + (match best.mv {
        Some(mv) => move_chars(mv),
        None => move_chars(Move { from: 0, to: 0, promotion: None }),
    })
}

/// Whether what a plain search handed back is the given result and state.
pub open spec fn meets(best: MoveScore, cache: Map<u64, CacheEntry>, nodes: u64, expected: PlainResult) -> bool {
    best == expected.best && cache == expected.state.cache && nodes == expected.state.nodes
}

/// Writes the line that reports a depth of the plain search.
pub fn plain_info_line(depth: u8, best: MoveScore, nodes: u64, elapsed: u128) -> (line: String)
    ensures
        line@ == plain_info_chars(depth, best, nodes, elapsed),
{
    let nps: u64 = if elapsed == 0 {
        0
    } else {
        let rate: u128 = nodes as u128 * 1000 / elapsed;
        if rate > u64::MAX as u128 {
            u64::MAX
        } else {
            rate as u64
        }
    };
    let time: u64 = if elapsed > u64::MAX as u128 {
        u64::MAX
    } else {
        elapsed as u64
    };
    let mut line = String::from_str("info depth ");
    push_decimal(&mut line, depth as u64);
    line.append(" score cp ");
    push_signed(&mut line, best.score as i64);
    line.append(" nodes ");
    push_decimal(&mut line, nodes);
    line.append(" nps ");
    push_decimal(&mut line, nps);
    line.append(" time ");
    push_decimal(&mut line, time);
    line.append(" bestmove ");
    match best.mv {
        Some(mv) => push_move(&mut line, mv),
        None => push_move(&mut line, Move { from: 0, to: 0, promotion: None }),
    }
    line
}

/// The plain search of one node, given up with `Err` as soon as the time
/// is up or the flag is found lowered.
pub fn minimax(
    board: &Board,
    depth: u8,
    alpha: i32,
    beta: i32,
    start_time: &Instant,
    time_limit: u64,
    nodes: &mut u64,
    transposition_table: &mut HashMap<u64, CacheEntry>,
    is_going: &AtomicBool,
) -> (outcome: Result<MoveScore, ()>)
    ensures
        outcome matches Ok(best) ==> meets(
            best,
            final(transposition_table)@,
            *final(nodes),
            plain_search(
                board_record(*board),
                depth as int,
                alpha,
                beta,
                (PlainState { cache: old(transposition_table)@, nodes: *old(nodes) }),
            ),
        ),
    decreases depth, 1int, 0int,
{
    let elapsed = elapsed_ms(start_time);
    let playing = still_playing(is_going);
    minimax_node(
        board,
        depth,
        alpha,
        beta,
        elapsed,
        playing,
        start_time,
        time_limit,
        nodes,
        transposition_table,
        is_going,
    )
}

/// Whether the plain search of a node comes to its result without
/// searching a move: the cache holds an exact score or a bound that closes
/// the window, or the node is a leaf, or the game is finished there.
pub open spec fn settles_at_once(
    record: Seq<u16>,
    depth: int,
    alpha: i32,
    beta: i32,
    cache: Map<u64, CacheEntry>,
) -> bool {
    let found = cached(cache, record_hash(record), depth);
    ||| found is Some && (found->0.bound == SearchBound::Exact || cached_alpha(found, alpha)
        >= cached_beta(found, beta))
    ||| depth <= 0
    ||| status_of(record) != GameStatus::Ongoing
}

/// The plain search of one node once the clock and the flag have been read
/// there: `elapsed` milliseconds have passed, and the flag was `playing`.
/// With the time up or the flag lowered the search is given up at once and
/// changes nothing. Else the node is counted, and a node that the cache
/// settles, a leaf and a finished game come to their result whatever clock
/// and flag do later; where moves are searched, each reads them anew, and
/// the first that is given up gives up the whole search.
pub fn minimax_node(
    board: &Board,
    depth: u8,
    alpha: i32,
    beta: i32,
    elapsed: u128,
    playing: bool,
    start_time: &Instant,
    time_limit: u64,
    nodes: &mut u64,
    transposition_table: &mut HashMap<u64, CacheEntry>,
    is_going: &AtomicBool,
) -> (outcome: Result<MoveScore, ()>)
    ensures
        elapsed > time_limit || !playing ==> outcome is Err,
        elapsed > time_limit || !playing ==> *final(nodes) == *old(nodes),
        elapsed > time_limit || !playing ==> final(transposition_table)@ == old(transposition_table)@,
        elapsed <= time_limit && playing && settles_at_once(
            board_record(*board),
            depth as int,
            alpha,
            beta,
            old(transposition_table)@,
        ) ==> outcome is Ok,
        outcome matches Ok(best) ==> meets(
            best,
            final(transposition_table)@,
            *final(nodes),
            plain_search(
                board_record(*board),
                depth as int,
                alpha,
                beta,
                (PlainState { cache: old(transposition_table)@, nodes: *old(nodes) }),
            ),
        ),
    decreases depth, 0int, 0int,
{
    broadcast use vstd::std_specs::hash::group_hash_axioms;

    if elapsed > time_limit as u128 || !playing {
        return Err(());
    }
    let ghost record = board_record(*board);
    let ghost goal = plain_search(
        record,
        depth as int,
        alpha,
        beta,
        (PlainState { cache: transposition_table@, nodes: *nodes }),
    );
    if *nodes < u64::MAX {
        *nodes = *nodes + 1;
    }
    let key = hash(board);
    let mut low = alpha;
    let mut high = beta;
    if let Some(tt_entry) = transposition_table.get(&key) {
        if tt_entry.depth >= depth && depth > 0 {
            match tt_entry.bound {
                SearchBound::Exact => {
                    return Ok(MoveScore { score: tt_entry.val, mv: tt_entry.chess_move });
                },
                SearchBound::Lower => {
                    if tt_entry.val > low {
                        low = tt_entry.val;
                    }
                },
                SearchBound::Upper => {
                    if tt_entry.val < high {
                        high = tt_entry.val;
                    }
                },
            }
            if low >= high {
                return Ok(MoveScore { score: tt_entry.val, mv: tt_entry.chess_move });
            }
        }
    }
    if depth == 0 || status(board) != GameStatus::Ongoing {
        return Ok(MoveScore { score: eval(board, 0), mv: None });
    }
    let maximizing = side_to_move(board) == Color::White;
    let mut best_move = MoveScore {
        score: if maximizing {
            i32::MIN
        } else {
            i32::MAX
        },
        mv: None,
    };
    let moves = generate_moves(board);
    let mut i: usize = 0;
    while i < moves.len()
        invariant
            i <= moves@.len(),
            depth > 0,
            record == board_record(*board),
            key == record_hash(record),
            moves@ == record_moves(record),
            forall|k: int| 0 <= k < moves@.len() ==> moves@[k].from < 64 && moves@[k].to < 64,
            maximizing == (side_of(record) == Color::White),
            plain_moves(
                record,
                depth as int,
                alpha,
                beta,
                moves@,
                i as int,
                low,
                high,
                best_move,
                (PlainState { cache: transposition_table@, nodes: *nodes }),
            ) == goal,
            goal == plain_search(
                board_record(*board),
                depth as int,
                alpha,
                beta,
                (PlainState { cache: old(transposition_table)@, nodes: *old(nodes) }),
            ),
            elapsed <= time_limit,
            playing,
            !settles_at_once(record, depth as int, alpha, beta, old(transposition_table)@),
        decreases moves@.len() - i,
    {
        let mv = moves[i];
        let new_board = play(board, mv);
        let score = match minimax(
            &new_board,
            depth - 1,
            low,
            high,
            start_time,
            time_limit,
            nodes,
            transposition_table,
            is_going,
        ) {
            Ok(reply) => reply.score,
            Err(_) => {
                return Err(());
            },
        };
        let mut cut = false;
        if maximizing {
            if score > best_move.score {
                best_move = MoveScore { score, mv: Some(mv) };
            }
            if score >= high {
                cut = true;
            } else if score > low {
                low = score;
            }
        } else {
            if score < best_move.score {
                best_move = MoveScore { score, mv: Some(mv) };
            }
            if score <= low {
                cut = true;
            } else if score < high {
                high = score;
            }
        }
        if cut {
            cache_best(transposition_table, key, depth, alpha, beta, best_move);
            return Ok(best_move);
        }
        i = i + 1;
    }
    cache_best(transposition_table, key, depth, alpha, beta, best_move);
    Ok(best_move)
}

/// Caches the outcome of a node's moves.
fn cache_best(
    transposition_table: &mut HashMap<u64, CacheEntry>,
    key: u64,
    depth: u8,
    entry_alpha: i32,
    entry_beta: i32,
    best: MoveScore,
)
    ensures
        final(transposition_table)@ == old(transposition_table)@.insert(
            key,
            (CacheEntry {
                val: best.score,
                depth,
                bound: plain_bound(best.score, entry_alpha, entry_beta),
                chess_move: best.mv,
            }),
        ),
{
    broadcast use vstd::std_specs::hash::group_hash_axioms;

    let bound = if best.score <= entry_alpha {
        SearchBound::Upper
    } else if best.score >= entry_beta {
        SearchBound::Lower
    } else {
        SearchBound::Exact
    };
    transposition_table.insert(
        key,
        CacheEntry { val: best.score, depth, bound, chess_move: best.mv },
    );
}

/// The lines that report the first `depths` depths of the plain search,
/// of which depth `d` was completed when `times[d - 1]` milliseconds had
/// passed.
pub open spec fn plain_lines(record: Seq<u16>, depths: int, times: Seq<u128>) -> Seq<Seq<char>>
    decreases depths,
{
    if depths <= 0 {
        Seq::empty()
    } else {
        let now = plain_deepening(record, depths);
        plain_lines(record, depths - 1, times).push(
            plain_info_chars(depths as u8, now.best, now.state.nodes, times[depths - 1]),
        )
    }
}

/// The lines for the first depths do not depend on the times of later ones.
pub proof fn lemma_plain_lines_prefix(record: Seq<u16>, depths: int, times: Seq<u128>, longer: Seq<u128>)
    requires
        depths <= times.len() <= longer.len(),
        forall|i: int| 0 <= i < times.len() ==> times[i] == longer[i],
    ensures
        plain_lines(record, depths, times) == plain_lines(record, depths, longer),
    decreases depths,
{
    if depths > 0 {
        lemma_plain_lines_prefix(record, depths - 1, times, longer);
    }
}

/// Tells whether the plain search starts another depth when `elapsed`
/// milliseconds have passed, `completed` depths are done and the flag was
/// read as `playing`: the time is not up, a depth is left, and the flag is
/// raised.
pub fn goes_on(elapsed: u128, time_limit: u64, completed: u8, max_depth: u8, playing: bool) -> (go: bool)
    ensures
        go == (elapsed < time_limit && completed < max_depth && playing),
{
    elapsed < time_limit as u128 && completed < max_depth && playing
}

/// Iterative deepening with the plain search: depth after depth until the
/// time is up, the deepest depth is done or the flag is found lowered.
/// Hands back what the last completed depth found, and adds a line for
/// every completed depth to `report`.
///
/// When the search ends and how long each depth takes is up to the clock
/// and the flag; whenever it ends, it has completed some number of depths,
/// and what it hands back and reports is what `plain_deepening` and
/// `plain_lines` lay down for that number and those times.
pub fn search_best_move(
    board: &Board,
    time_limit: u64,
    max_depth: u8,
    is_going: &AtomicBool,
    report: &mut Vec<String>,
) -> (best: MoveScore)
    ensures
        exists|times: Seq<u128>|
            times.len() <= max_depth && best == plain_deepening(
                board_record(*board),
                times.len() as int,
            ).best && texts(final(report)@) == texts(old(report)@) + #[trigger] plain_lines(
                board_record(*board),
                times.len() as int,
                times,
            ),
        time_limit == 0 || max_depth == 0 ==> best == (MoveScore { score: 0, mv: None }),
        time_limit == 0 || max_depth == 0 ==> final(report)@ == old(report)@,
{
    let start = now();
    let mut completed: u8 = 0;
    let mut best_move = MoveScore { score: 0, mv: None };
    let mut nodes: u64 = 0;
    let mut transposition_table: HashMap<u64, CacheEntry> = HashMap::new();
    assert(transposition_table@ =~= Map::<u64, CacheEntry>::empty());
    let ghost record = board_record(*board);
    let ghost earlier = texts(old(report)@);
    let ghost mut times: Seq<u128> = Seq::empty();
    assert(texts(report@) =~= earlier + plain_lines(record, 0, times));
    loop
        invariant_except_break
            meets(
                best_move,
                transposition_table@,
                nodes,
                plain_deepening(board_record(*board), completed as int),
            ),
        invariant
            completed <= max_depth,
            record == board_record(*board),
            times.len() == completed,
            texts(report@) == earlier + plain_lines(record, completed as int, times),
            completed == 0 ==> report@ == old(report)@,
            time_limit == 0 ==> completed == 0,
        ensures
            best_move == plain_deepening(board_record(*board), completed as int).best,
        decreases max_depth - completed,
    {
        let elapsed = elapsed_ms(&start);
        let playing = still_playing(is_going);
        if !goes_on(elapsed, time_limit, completed, max_depth, playing) {
            break;
        }
        match minimax(
            board,
            completed + 1,
            i32::MIN,
            i32::MAX,
            &start,
            time_limit,
            &mut nodes,
            &mut transposition_table,
            is_going,
        ) {
            Ok(found) => {
                best_move = found;
            },
            Err(_) => {
                break;
            },
        }
        completed = completed + 1;
        let elapsed = elapsed_ms(&start);
        let ghost reported = texts(report@);
        proof {
            lemma_plain_lines_prefix(record, completed - 1, times, times.push(elapsed));
            times = times.push(elapsed);
        }
        report.push(plain_info_line(completed, best_move, nodes, elapsed));
        assert(texts(report@) =~= reported.push(report@.last()@));
        assert(texts(report@) =~= earlier + plain_lines(record, completed as int, times));
    }
    best_move
}

} // verus!
