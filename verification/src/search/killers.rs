//! Killer moves: for each distance from the root, the moves that lately cut
//! a search short there.

use vstd::prelude::*;
use std::collections::HashMap;
use crate::types::Move;

verus! {

/// How many killer moves are kept for one distance from the root.
pub const KILLER_CAPACITY: usize = 32;

/// How many distances from the root the table covers: every `u8`.
pub const KILLER_PLIES: usize = 256;

/// A line of killer moves after one more was remembered: the move goes to
/// the end, and the oldest leaves once more than `KILLER_CAPACITY` are held.
pub open spec fn remember(line: Seq<Move>, mv: Move) -> Seq<Move> {
    let longer = line.push(mv);
    if longer.len() > KILLER_CAPACITY {
        longer.drop_first()
    } else {
        longer
    }
}

/// A line of killer moves after a run of moves was remembered, one after
/// the other.
pub open spec fn remember_all(line: Seq<Move>, moves: Seq<Move>) -> Seq<Move>
    decreases moves.len(),
{
    if moves.len() == 0 {
        line
    } else {
        remember(remember_all(line, moves.drop_last()), moves.last())
    }
}

/// Whether a line of killer moves has come from another by remembering
/// moves and in no other way: moves join at the back, and the oldest leave
/// at the front once the line is full.
pub open spec fn line_grown(before: Seq<Move>, after: Seq<Move>) -> bool {
    exists|moves: Seq<Move>| after == #[trigger] remember_all(before, moves)
}

/// Whether the killer moves of a search have come from those before by
/// what a search does `ply` half-moves from the root and deeper: the lines
/// nearer the root stand as they stood, and every other line has come from
/// what it was by remembering moves.
pub open spec fn killers_grown(before: Seq<Seq<Move>>, after: Seq<Seq<Move>>, ply: int) -> bool {
    &&& after.len() == before.len()
    &&& forall|i: int|
        0 <= i < before.len() ==> (i < ply ==> after[i] == before[i]) && line_grown(
            #[trigger] before[i],
            after[i],
        )
}

/// Remembering one run of moves and then another is remembering the two
/// runs as one.
pub proof fn lemma_remember_all_joined(line: Seq<Move>, first: Seq<Move>, second: Seq<Move>)
    ensures
        remember_all(remember_all(line, first), second) == remember_all(line, first + second),
    decreases second.len(),
{
    if second.len() == 0 {
        assert(first + second =~= first);
    } else {
        lemma_remember_all_joined(line, first, second.drop_last());
        assert((first + second).drop_last() =~= first + second.drop_last());
        assert((first + second).last() == second.last());
    }
}

/// A line has come from itself, and from what it was before a move was
/// remembered.
pub proof fn lemma_line_grown(line: Seq<Move>, mv: Move)
    ensures
        line_grown(line, line),
        line_grown(line, remember(line, mv)),
{
    assert(line == remember_all(line, Seq::<Move>::empty()));
    let one = seq![mv];
    assert(one.drop_last() =~= Seq::<Move>::empty());
    assert(remember_all(line, one.drop_last()) == line);
    assert(remember(line, mv) == remember_all(line, one));
}

/// Lines that have come from one another form a chain.
pub proof fn lemma_line_grown_chain(first: Seq<Move>, second: Seq<Move>, third: Seq<Move>)
    requires
        line_grown(first, second),
        line_grown(second, third),
    ensures
        line_grown(first, third),
{
    let one = choose|moves: Seq<Move>| second == #[trigger] remember_all(first, moves);
    let two = choose|moves: Seq<Move>| third == #[trigger] remember_all(second, moves);
    lemma_remember_all_joined(first, one, two);
    assert(third == remember_all(first, one + two));
}

/// Killer moves have come from themselves at any distance from the root.
pub proof fn lemma_killers_grown_same(lines: Seq<Seq<Move>>, ply: int)
    ensures
        killers_grown(lines, lines, ply),
{
    assert forall|i: int| 0 <= i < lines.len() implies line_grown(#[trigger] lines[i], lines[i]) by {
        lemma_line_grown(lines[i], arbitrary());
    }
}

/// Remembering a move at a distance from the root is what a search does
/// there.
pub proof fn lemma_killers_grown_by_one(lines: Seq<Seq<Move>>, ply: int, mv: Move)
    requires
        0 <= ply < lines.len(),
    ensures
        killers_grown(lines, lines.update(ply, remember(lines[ply], mv)), ply),
{
    let after = lines.update(ply, remember(lines[ply], mv));
    assert forall|i: int| 0 <= i < lines.len() implies (i < ply ==> after[i] == lines[i])
        && line_grown(#[trigger] lines[i], after[i]) by {
        lemma_line_grown(lines[i], mv);
    }
}

/// What searches do one after the other, the second no nearer the root
/// than the first, is what one search does where the first stands.
pub proof fn lemma_killers_grown_chain(
    first: Seq<Seq<Move>>,
    second: Seq<Seq<Move>>,
    third: Seq<Seq<Move>>,
    ply: int,
    deeper: int,
)
    requires
        killers_grown(first, second, ply),
        killers_grown(second, third, deeper),
        ply <= deeper,
    ensures
        killers_grown(first, third, ply),
{
    assert forall|i: int| 0 <= i < first.len() implies (i < ply ==> third[i] == first[i])
        && line_grown(#[trigger] first[i], third[i]) by {
        assert(line_grown(first[i], second[i]));
        assert(line_grown(second[i], third[i]));
        lemma_line_grown_chain(first[i], second[i], third[i]);
    }
}

/// The lines of killer moves that a map holds, by distance from the root:
/// one line for every `u8`, empty where the map holds none.
pub open spec fn killer_lines(killer_moves: Map<u8, Vec<Move>>) -> Seq<Seq<Move>> {
    Seq::new(
        KILLER_PLIES as nat,
        |i: int|
            if killer_moves.contains_key(i as u8) {
                killer_moves[i as u8]@
            } else {
                Seq::<Move>::empty()
            },
    )
}

/// The killer moves at a distance from the root, oldest first.
pub fn killers_at(killer_moves: &HashMap<u8, Vec<Move>>, ply: u8) -> (line: Vec<Move>)
    ensures
        line@ == killer_lines(killer_moves@)[ply as int],
{
    broadcast use vstd::std_specs::hash::group_hash_axioms;

    let mut line: Vec<Move> = Vec::new();
    if let Some(held) = killer_moves.get(&ply) {
        let mut i: usize = 0;
        while i < held.len()
            invariant
                i <= held@.len(),
                line@ == held@.take(i as int),
            decreases held@.len() - i,
        {
            line.push(held[i]);
            assert(line@ =~= held@.take(i + 1));
            i = i + 1;
        }
        assert(line@ =~= held@);
    }
    line
}

/// Remembers a move that cut the search short at a distance from the root.
pub fn remember_killer(killer_moves: &mut HashMap<u8, Vec<Move>>, ply: u8, mv: Move)
    ensures
        killer_lines(final(killer_moves)@) == killer_lines(old(killer_moves)@).update(
            ply as int,
            remember(killer_lines(old(killer_moves)@)[ply as int], mv),
        ),
{
    broadcast use vstd::std_specs::hash::group_hash_axioms;

    let mut line = killers_at(killer_moves, ply);
    let ghost before = line@;
    line.push(mv);
    if line.len() > KILLER_CAPACITY {
        line.remove(0);
    }
    assert(line@ =~= remember(before, mv));
    killer_moves.insert(ply, line);
    assert(killer_lines(killer_moves@) =~= killer_lines(old(killer_moves)@).update(
        ply as int,
        remember(killer_lines(old(killer_moves)@)[ply as int], mv),
    ));
}

} // verus!
