//! Perft: counting the leaves of the tree of legal moves.

use vstd::prelude::*;
use cozy_chess::Board;
use crate::board::{board_record, generate_moves, play, record_after, record_moves};
use crate::types::Move;

verus! {

/// The number of ways to play `depth` half-moves from a position.
pub open spec fn perft(record: Seq<u16>, depth: nat) -> nat
    decreases depth, 1nat, 0nat,
{
    if depth == 0 {
        1
    } else {
        let moves = record_moves(record);
        perft_among(record, moves, moves.len() as int, depth)
    }
}

/// The number of ways to play `depth` half-moves from a position, the
/// first of them one of the first `upto` moves of a list.
pub open spec fn perft_among(record: Seq<u16>, moves: Seq<Move>, upto: int, depth: nat) -> nat
    decreases depth, 0nat, upto,
{
    if depth == 0 || upto <= 0 {
        0
    } else {
        perft_among(record, moves, upto - 1, depth) + perft(
            record_after(record, moves[upto - 1]),
            (depth - 1) as nat,
        )
    }
}

/// A count as far as a `u64` holds it.
pub open spec fn held(count: nat) -> u64 {
    if count > u64::MAX {
        u64::MAX
    } else {
        count as u64
    }
}

/// Counts the leaves of the tree of legal moves `depth` half-moves deep. A
/// count beyond the largest `u64` comes back as the largest `u64`.
pub fn uci_perft(board: &Board, depth: u8) -> (nodes: u64)
    ensures
        nodes == held(perft(board_record(*board), depth as nat)),
    decreases depth,
{
    if depth == 0 {
        return 1;
    }
    let moves = generate_moves(board);
    let ghost record = board_record(*board);
    let mut nodes: u64 = 0;
    let mut i: usize = 0;
    while i < moves.len()
        invariant
            i <= moves@.len(),
            depth > 0,
            record == board_record(*board),
            moves@ == record_moves(record),
            nodes == held(perft_among(record, moves@, i as int, depth as nat)),
        decreases moves@.len() - i,
    {
        let next = play(board, moves[i]);
        let below = uci_perft(&next, depth - 1);
        nodes = nodes.saturating_add(below);
        i = i + 1;
    }
    nodes
}

} // verus!
