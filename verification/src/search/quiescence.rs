//! Quiescence search: beyond the horizon only captures are tried, until the
//! position is quiet.

use vstd::prelude::*;
use cozy_chess::Board;
use std::sync::atomic::AtomicBool;
use crate::board::{
    board_record,
    generate_moves,
    play,
    record_after,
    record_moves,
    side_of,
    side_to_move,
};
use crate::eval::eval::{eval, eval_score};
use crate::eval::eval_count_material::{get_piece_value_opening, piece_value_opening};
use crate::eval::eval_is_mate::MAX_PLY;
use crate::search::order_moves::{
    victim,
    victim_of,
    lemma_sort_by_score,
    moves_of,
    sort_by_score,
    sort_scored,
    strip_scores,
};
use crate::search::stop::still_playing;
use crate::types::{Color, Move};

verus! {

/// A node count after one more node, which stays at the largest count once
/// it is reached.
pub open spec fn bump(nodes: u64) -> u64 {
    if nodes < u64::MAX {
        (nodes + 1) as u64
    } else {
        nodes
    }
}

/// The greater of two scores.
pub open spec fn max_score(a: i32, b: i32) -> i32 {
    if a >= b {
        a
    } else {
        b
    }
}

/// The lesser of two scores.
pub open spec fn min_score(a: i32, b: i32) -> i32 {
    if a <= b {
        a
    } else {
        b
    }
}

/// The captures among the first `upto` moves of a list, each with the worth
/// of what it takes.
pub open spec fn captures_among(record: Seq<u16>, moves: Seq<Move>, upto: int) -> Seq<(Move, i32)>
    decreases upto,
{
    if upto <= 0 {
        Seq::empty()
    } else {
        let rest = captures_among(record, moves, upto - 1);
        match victim_of(record, moves[upto - 1]) {
            Some(victim) => rest.push((moves[upto - 1], piece_value_opening(victim) as i32)),
            None => rest,
        }
    }
}

/// The captures of a position, the most valuable victim first.
pub open spec fn capture_moves(record: Seq<u16>) -> Seq<Move> {
    let moves = record_moves(record);
    let captures = captures_among(record, moves, moves.len() as int);
    moves_of(sort_by_score(captures, captures.len() as int))
}

/// The value of a position by quiescence search within a window, and the
/// node count after the search. The side to move may stand pat on the static
/// score or try its captures in turn; each capture is answered by the same
/// search one half-move further from the root, where at `MAX_PLY` only the
/// static score counts.
pub open spec fn quiesce(record: Seq<u16>, alpha: i32, beta: i32, ply: int, nodes: u64) -> (i32, u64)
    decreases MAX_PLY - ply, 1int, 0int,
{
    let stand_pat = eval_score(record, ply) as i32;
    match side_of(record) {
        Color::White => if stand_pat >= beta {
            (beta, bump(nodes))
        } else {
            quiesce_captures(
                record,
                capture_moves(record),
                0,
                max_score(alpha, stand_pat),
                beta,
                ply,
                bump(nodes),
            )
        },
        Color::Black => if stand_pat <= alpha {
            (alpha, bump(nodes))
        } else {
            quiesce_captures(
                record,
                capture_moves(record),
                0,
                alpha,
                min_score(beta, stand_pat),
                ply,
                bump(nodes),
            )
        },
    }
}

/// The quiescence value of a position once its captures before index `from`
/// have narrowed the window to `alpha` and `beta`.
pub open spec fn quiesce_captures(
    record: Seq<u16>,
    captures: Seq<Move>,
    from: int,
    alpha: i32,
    beta: i32,
    ply: int,
    nodes: u64,
) -> (i32, u64)
    decreases MAX_PLY - ply, 0int, captures.len() - from,
{
    if from >= captures.len() || ply >= MAX_PLY || from < 0 {
        match side_of(record) {
            Color::White => (alpha, nodes),
            Color::Black => (beta, nodes),
        }
    } else {
        let reply = quiesce(record_after(record, captures[from]), alpha, beta, ply + 1, nodes);
        match side_of(record) {
            Color::White => {
                let raised = max_score(alpha, reply.0);
                if raised >= beta {
                    (raised, reply.1)
                } else {
                    quiesce_captures(record, captures, from + 1, raised, beta, ply, reply.1)
                }
            },
            Color::Black => {
                let lowered = min_score(beta, reply.0);
                if lowered <= alpha {
                    (lowered, reply.1)
                } else {
                    quiesce_captures(record, captures, from + 1, alpha, lowered, ply, reply.1)
                }
            },
        }
    }
}

/// Every capture among the first `upto` moves of a list is one of the moves.
pub proof fn lemma_captures_among(record: Seq<u16>, moves: Seq<Move>, upto: int)
    requires
        0 <= upto <= moves.len(),
    ensures
        captures_among(record, moves, upto).len() <= upto,
        forall|i: int|
            0 <= i < captures_among(record, moves, upto).len() ==> moves.contains(
                (#[trigger] captures_among(record, moves, upto)[i]).0,
            ),
    decreases upto,
{
    if upto > 0 {
        lemma_captures_among(record, moves, upto - 1);
    }
}

/// Every capture of a position is a legal move of it.
pub proof fn lemma_capture_moves_are_legal(record: Seq<u16>)
    ensures
        forall|i: int|
            0 <= i < capture_moves(record).len() ==> record_moves(record).contains(
                #[trigger] capture_moves(record)[i],
            ),
{
    let moves = record_moves(record);
    let captures = captures_among(record, moves, moves.len() as int);
    lemma_captures_among(record, moves, moves.len() as int);
    lemma_sort_by_score(captures, captures.len() as int);
    let sorted = sort_by_score(captures, captures.len() as int);
    assert forall|i: int| 0 <= i < capture_moves(record).len() implies moves.contains(
        #[trigger] capture_moves(record)[i],
    ) by {
        assert(captures.contains(sorted[i]));
        let k = choose|k: int| 0 <= k < captures.len() && captures[k] == sorted[i];
        assert(moves.contains(captures[k].0));
    }
}

/// On a position without captures, quiescence search returns the static
/// score whenever the window holds it.
pub proof fn lemma_quiet_position_stands_pat(record: Seq<u16>, alpha: i32, beta: i32, ply: int, nodes: u64)
    requires
        capture_moves(record).len() == 0,
        alpha <= eval_score(record, ply) as i32 <= beta,
    ensures
        quiesce(record, alpha, beta, ply, nodes).0 == eval_score(record, ply) as i32,
        quiesce(record, alpha, beta, ply, nodes).1 == bump(nodes),
{
}

/// Quiescence search never leaves its window: with `alpha <= beta` the
/// value lies between them.
pub proof fn lemma_quiesce_within_window(record: Seq<u16>, alpha: i32, beta: i32, ply: int, nodes: u64)
    requires
        alpha <= beta,
    ensures
        alpha <= quiesce(record, alpha, beta, ply, nodes).0 <= beta,
    decreases MAX_PLY - ply, 1int, 0int,
{
    let stand_pat = eval_score(record, ply) as i32;
    match side_of(record) {
        Color::White => if stand_pat < beta {
            lemma_quiesce_captures_within_window(
                record,
                capture_moves(record),
                0,
                max_score(alpha, stand_pat),
                beta,
                ply,
                bump(nodes),
            );
        },
        Color::Black => if stand_pat > alpha {
            lemma_quiesce_captures_within_window(
                record,
                capture_moves(record),
                0,
                alpha,
                min_score(beta, stand_pat),
                ply,
                bump(nodes),
            );
        },
    }
}

/// The captures from index `from` on never leave the window either.
pub proof fn lemma_quiesce_captures_within_window(
    record: Seq<u16>,
    captures: Seq<Move>,
    from: int,
    alpha: i32,
    beta: i32,
    ply: int,
    nodes: u64,
)
    requires
        alpha <= beta,
    ensures
        alpha <= quiesce_captures(record, captures, from, alpha, beta, ply, nodes).0 <= beta,
    decreases MAX_PLY - ply, 0int, captures.len() - from,
{
    if from >= captures.len() || ply >= MAX_PLY || from < 0 {
    } else {
        let next = record_after(record, captures[from]);
        lemma_quiesce_within_window(next, alpha, beta, ply + 1, nodes);
        let reply = quiesce(next, alpha, beta, ply + 1, nodes);
        match side_of(record) {
            Color::White => {
                let raised = max_score(alpha, reply.0);
                if raised < beta {
                    lemma_quiesce_captures_within_window(
                        record,
                        captures,
                        from + 1,
                        raised,
                        beta,
                        ply,
                        reply.1,
                    );
                }
            },
            Color::Black => {
                let lowered = min_score(beta, reply.0);
                if lowered > alpha {
                    lemma_quiesce_captures_within_window(
                        record,
                        captures,
                        from + 1,
                        alpha,
                        lowered,
                        ply,
                        reply.1,
                    );
                }
            },
        }
    }
}

/// The value of a position by capture search without any pruning: the
/// side to move takes the best of standing pat on the static score and of
/// every capture, each capture valued by the same search one half-move
/// further from the root.
pub open spec fn capture_value(record: Seq<u16>, ply: int) -> i32
    decreases MAX_PLY - ply, 1int, 0int,
{
    best_capture(record, capture_moves(record), 0, eval_score(record, ply) as i32, ply)
}

/// The best for the side to move of `so_far` and the values of the
/// captures from index `from` on. At `MAX_PLY` no capture is looked at.
pub open spec fn best_capture(record: Seq<u16>, captures: Seq<Move>, from: int, so_far: i32, ply: int) -> i32
    decreases MAX_PLY - ply, 0int, captures.len() - from,
{
    if from >= captures.len() || ply >= MAX_PLY || from < 0 {
        so_far
    } else {
        let reply = capture_value(record_after(record, captures[from]), ply + 1);
        best_capture(
            record,
            captures,
            from + 1,
            match side_of(record) {
                Color::White => max_score(so_far, reply),
                Color::Black => min_score(so_far, reply),
            },
            ply,
        )
    }
}

/// A score brought into a window: alpha if it lies below, beta if it lies
/// above, else the score.
pub open spec fn clamp_score(score: i32, alpha: i32, beta: i32) -> i32 {
    if score <= alpha {
        alpha
    } else if score >= beta {
        beta
    } else {
        score
    }
}

/// Starting from a better score leads to a result at least as good, and to
/// the same result where the result is better still.
proof fn lemma_best_capture_start(
    record: Seq<u16>,
    captures: Seq<Move>,
    from: int,
    so_far: i32,
    floor: i32,
    ply: int,
)
    ensures
        side_of(record) == Color::White ==> best_capture(
            record,
            captures,
            from,
            max_score(floor, so_far),
            ply,
        ) == max_score(floor, best_capture(record, captures, from, so_far, ply)),
        side_of(record) == Color::Black ==> best_capture(
            record,
            captures,
            from,
            min_score(floor, so_far),
            ply,
        ) == min_score(floor, best_capture(record, captures, from, so_far, ply)),
    decreases captures.len() - from,
{
    if from >= captures.len() || ply >= MAX_PLY || from < 0 {
    } else {
        let reply = capture_value(record_after(record, captures[from]), ply + 1);
        match side_of(record) {
            Color::White => {
                lemma_best_capture_start(record, captures, from + 1, max_score(so_far, reply), floor, ply);
                assert(max_score(max_score(floor, so_far), reply) == max_score(
                    floor,
                    max_score(so_far, reply),
                ));
            },
            Color::Black => {
                lemma_best_capture_start(record, captures, from + 1, min_score(so_far, reply), floor, ply);
                assert(min_score(min_score(floor, so_far), reply) == min_score(
                    floor,
                    min_score(so_far, reply),
                ));
            },
        }
    }
}

/// The result of the captures is at least as good for the side to move as
/// the score it starts from.
proof fn lemma_best_capture_improves(record: Seq<u16>, captures: Seq<Move>, from: int, so_far: i32, ply: int)
    ensures
        side_of(record) == Color::White ==> best_capture(record, captures, from, so_far, ply) >= so_far,
        side_of(record) == Color::Black ==> best_capture(record, captures, from, so_far, ply) <= so_far,
    decreases captures.len() - from,
{
    if from >= captures.len() || ply >= MAX_PLY || from < 0 {
    } else {
        let reply = capture_value(record_after(record, captures[from]), ply + 1);
        match side_of(record) {
            Color::White => {
                lemma_best_capture_improves(record, captures, from + 1, max_score(so_far, reply), ply);
            },
            Color::Black => {
                lemma_best_capture_improves(record, captures, from + 1, min_score(so_far, reply), ply);
            },
        }
    }
}

/// Pruning loses nothing: within any window, quiescence search returns the
/// value of the capture search without pruning, brought into the window.
pub proof fn lemma_quiesce_is_capture_value(record: Seq<u16>, alpha: i32, beta: i32, ply: int, nodes: u64)
    requires
        alpha <= beta,
    ensures
        quiesce(record, alpha, beta, ply, nodes).0 == clamp_score(
            capture_value(record, ply),
            alpha,
            beta,
        ),
    decreases MAX_PLY - ply, 1int, 0int,
{
    let stand_pat = eval_score(record, ply) as i32;
    let captures = capture_moves(record);
    lemma_best_capture_improves(record, captures, 0, stand_pat, ply);
    match side_of(record) {
        Color::White => {
            if stand_pat < beta {
                lemma_quiesce_captures_is_capture_value(
                    record,
                    captures,
                    0,
                    max_score(alpha, stand_pat),
                    beta,
                    ply,
                    bump(nodes),
                );
                lemma_best_capture_start(record, captures, 0, stand_pat, alpha, ply);
            }
        },
        Color::Black => {
            if stand_pat > alpha {
                lemma_quiesce_captures_is_capture_value(
                    record,
                    captures,
                    0,
                    alpha,
                    min_score(beta, stand_pat),
                    ply,
                    bump(nodes),
                );
                lemma_best_capture_start(record, captures, 0, stand_pat, beta, ply);
            }
        },
    }
}

/// Where no capture is worth more to the side to move than standing pat,
/// quiescence search returns the static score whenever the window holds it.
pub proof fn lemma_no_profitable_capture(record: Seq<u16>, alpha: i32, beta: i32, ply: int, nodes: u64)
    requires
        capture_value(record, ply) == eval_score(record, ply) as i32,
        alpha <= eval_score(record, ply) as i32 <= beta,
    ensures
        quiesce(record, alpha, beta, ply, nodes).0 == eval_score(record, ply) as i32,
{
    lemma_quiesce_is_capture_value(record, alpha, beta, ply, nodes);
}

/// The same for the captures from index `from` on: the search with the
/// window narrowed so far returns the best of the bound reached and the
/// values of the captures left, cut off at the other bound.
pub proof fn lemma_quiesce_captures_is_capture_value(
    record: Seq<u16>,
    captures: Seq<Move>,
    from: int,
    alpha: i32,
    beta: i32,
    ply: int,
    nodes: u64,
)
    requires
        alpha <= beta,
    ensures
        side_of(record) == Color::White ==> quiesce_captures(
            record,
            captures,
            from,
            alpha,
            beta,
            ply,
            nodes,
        ).0 == min_score(beta, best_capture(record, captures, from, alpha, ply)),
        side_of(record) == Color::Black ==> quiesce_captures(
            record,
            captures,
            from,
            alpha,
            beta,
            ply,
            nodes,
        ).0 == max_score(alpha, best_capture(record, captures, from, beta, ply)),
    decreases MAX_PLY - ply, 0int, captures.len() - from,
{
    if from >= captures.len() || ply >= MAX_PLY || from < 0 {
    } else {
        let next = record_after(record, captures[from]);
        lemma_quiesce_is_capture_value(next, alpha, beta, ply + 1, nodes);
        let reply = quiesce(next, alpha, beta, ply + 1, nodes);
        let value = capture_value(next, ply + 1);
        match side_of(record) {
            Color::White => {
                let raised = max_score(alpha, reply.0);
                lemma_best_capture_improves(record, captures, from + 1, max_score(alpha, value), ply);
                if raised < beta {
                    lemma_quiesce_captures_is_capture_value(
                        record,
                        captures,
                        from + 1,
                        raised,
                        beta,
                        ply,
                        reply.1,
                    );
                }
            },
            Color::Black => {
                let lowered = min_score(beta, reply.0);
                lemma_best_capture_improves(record, captures, from + 1, min_score(beta, value), ply);
                if lowered > alpha {
                    lemma_quiesce_captures_is_capture_value(
                        record,
                        captures,
                        from + 1,
                        alpha,
                        lowered,
                        ply,
                        reply.1,
                    );
                }
            },
        }
    }
}

/// The captures of a position, the most valuable victim first.
pub fn generate_captures(board: &Board) -> (captures: Vec<Move>)
    ensures
        captures@ == capture_moves(board_record(*board)),
        forall|i: int|
            0 <= i < captures@.len() ==> record_moves(board_record(*board)).contains(
                #[trigger] captures@[i],
            ),
{
    let moves = generate_moves(board);
    let mut scored: Vec<(Move, i32)> = Vec::new();
    let mut i: usize = 0;
    while i < moves.len()
        invariant
            i <= moves@.len(),
            moves@ == record_moves(board_record(*board)),
            forall|k: int| 0 <= k < moves@.len() ==> moves@[k].from < 64 && moves@[k].to < 64,
            scored@ == captures_among(board_record(*board), moves@, i as int),
        decreases moves@.len() - i,
    {
        let mv = moves[i];
        if let Some(taken) = victim(board, &mv) {
            scored.push((mv, get_piece_value_opening(taken)));
        }
        i = i + 1;
    }
    let sorted = sort_scored(&scored);
    proof {
        lemma_capture_moves_are_legal(board_record(*board));
    }
    strip_scores(&sorted)
}

/// Quiescence search that tells when it was stopped: `None` if the flag was
/// found lowered at some node, else the value.
pub fn try_quiescence(
    board: &Board,
    alpha: i32,
    beta: i32,
    distance_from_root: u8,
    is_playing: &AtomicBool,
    node_count: &mut u64,
) -> (value: Option<i32>)
    ensures
        match value {
            Some(score) => (score, *final(node_count)) == quiesce(
                board_record(*board),
                alpha,
                beta,
                distance_from_root as int,
                *old(node_count),
            ),
            None => true,
        },
        *old(node_count) <= *final(node_count),
    decreases MAX_PLY - distance_from_root, 1int, 0int,
{
    let playing = still_playing(is_playing);
    quiescence_node(board, alpha, beta, distance_from_root, playing, is_playing, node_count)
}

/// Quiescence search. The history of hashes plays no part among captures
/// and is taken for the caller's convenience. A search that finds the flag
/// lowered returns 0.
pub fn quiescence(
    board: &Board,
    hash_history: Vec<u64>,
    alpha: i32,
    beta: i32,
    distance_from_root: u8,
    is_playing: &AtomicBool,
    node_count: &mut u64,
) -> (score: i32)
    ensures
        score == 0 || (score, *final(node_count)) == quiesce(
            board_record(*board),
            alpha,
            beta,
            distance_from_root as int,
            *old(node_count),
        ),
        *old(node_count) <= *final(node_count),
{
    let playing = still_playing(is_playing);
    quiescence_after_reading(
        board,
        alpha,
        beta,
        distance_from_root,
        playing,
        is_playing,
        node_count,
    )
}

/// Quiescence search once the flag has been read as `playing`: 0 and
/// nothing counted with the flag lowered; with the flag raised the value,
/// or 0 if the flag is found lowered while a capture is answered.
pub fn quiescence_after_reading(
    board: &Board,
    alpha: i32,
    beta: i32,
    distance_from_root: u8,
    playing: bool,
    is_playing: &AtomicBool,
    node_count: &mut u64,
) -> (score: i32)
    ensures
        !playing ==> score == 0 && *final(node_count) == *old(node_count),
        playing && stands_at_once(board_record(*board), alpha, beta, distance_from_root as int)
            ==> (score, *final(node_count)) == quiesce(
            board_record(*board),
            alpha,
            beta,
            distance_from_root as int,
            *old(node_count),
        ),
        score == 0 || (score, *final(node_count)) == quiesce(
            board_record(*board),
            alpha,
            beta,
            distance_from_root as int,
            *old(node_count),
        ),
        *old(node_count) <= *final(node_count),
{
    match quiescence_node(board, alpha, beta, distance_from_root, playing, is_playing, node_count) {
        Some(score) => score,
        None => 0,
    }
}

/// Quiescence search of one node once the flag has been read there, as
/// `playing`. With the flag lowered the search stops at once and counts
/// nothing. With the flag raised it counts the node, and where no capture
/// is to be answered it returns the value whatever the flag does later;
/// where captures are answered, each answer reads the flag anew, and a
/// lowered flag stops the whole search.
pub fn quiescence_node(
    board: &Board,
    alpha: i32,
    beta: i32,
    distance_from_root: u8,
    playing: bool,
    is_playing: &AtomicBool,
    node_count: &mut u64,
) -> (value: Option<i32>)
    ensures
        !playing ==> value is None && *final(node_count) == *old(node_count),
        playing && stands_at_once(board_record(*board), alpha, beta, distance_from_root as int)
            ==> value is Some,
        match value {
            Some(score) => (score, *final(node_count)) == quiesce(
                board_record(*board),
                alpha,
                beta,
                distance_from_root as int,
                *old(node_count),
            ),
            None => true,
        },
        *old(node_count) <= *final(node_count),
    decreases MAX_PLY - distance_from_root, 0int, 0int,
{
    if !playing {
        return None;
    }
    let ghost record = board_record(*board);
    let ghost goal = quiesce(record, alpha, beta, distance_from_root as int, *old(node_count));
    if *node_count < u64::MAX {
        *node_count = *node_count + 1;
    }
    let stand_pat = eval(board, distance_from_root);
    let maximizing = side_to_move(board) == Color::White;
    let mut low = alpha;
    let mut high = beta;
    if maximizing {
        if stand_pat >= high {
            return Some(high);
        }
        if stand_pat > low {
            low = stand_pat;
        }
    } else {
        if stand_pat <= low {
            return Some(low);
        }
        if stand_pat < high {
            high = stand_pat;
        }
    }
    if distance_from_root < MAX_PLY {
        let moves = generate_captures(board);
        let mut i: usize = 0;
        assert(moves@ == capture_moves(record));
        while i < moves.len()
            invariant
                i <= moves@.len(),
                distance_from_root < MAX_PLY,
                record == board_record(*board),
                maximizing == (side_of(record) == Color::White),
                forall|k: int| 0 <= k < moves@.len() ==> record_moves(record).contains(#[trigger] moves@[k]),
                quiesce_captures(
                    record,
                    moves@,
                    i as int,
                    low,
                    high,
                    distance_from_root as int,
                    *node_count,
                ) == goal,
                goal == quiesce(record, alpha, beta, distance_from_root as int, *old(node_count)),
                *old(node_count) <= *node_count,
                playing,
                moves@.len() > 0 ==> !stands_at_once(record, alpha, beta, distance_from_root as int),
            decreases moves@.len() - i,
        {
            let new_board = play(board, moves[i]);
            let reply = try_quiescence(
                &new_board,
                low,
                high,
                distance_from_root + 1,
                is_playing,
                node_count,
            );
            let score = match reply {
                Some(score) => score,
                None => {
                    return None;
                },
            };
            if maximizing {
                if score > low {
                    low = score;
                }
                if low >= high {
                    return Some(low);
                }
            } else {
                if score < high {
                    high = score;
                }
                if high <= low {
                    return Some(high);
                }
            }
            i = i + 1;
        }
    }
    if maximizing {
        Some(low)
    } else {
        Some(high)
    }
}


/// Whether quiescence search of a position comes to its value without
/// answering a capture: the side to move stands pat at once at the far end
/// of the window, or the position lies `MAX_PLY` from the root, or it has
/// no capture.
pub open spec fn stands_at_once(record: Seq<u16>, alpha: i32, beta: i32, ply: int) -> bool {
    ||| ply >= MAX_PLY
    ||| capture_moves(record).len() == 0
    ||| match side_of(record) {
        Color::White => eval_score(record, ply) as i32 >= beta,
        Color::Black => eval_score(record, ply) as i32 <= alpha,
    }
}

} // verus!
