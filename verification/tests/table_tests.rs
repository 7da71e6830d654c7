use chessosity::search::is_threefold::is_threefold;
use chessosity::search::killers::{killers_at, remember_killer};
use std::collections::HashMap;
use chessosity::search::transposition_table::{
    TranspositionTable, TranspositionTableEntry, TranspositionTableEntryType,
};
use chessosity::types::{Move, Piece};

fn mv(from: u8, to: u8) -> Move {
    Move { from, to, promotion: None }
}

fn entry(hash: u64, depth: u8, score: i32) -> TranspositionTableEntry {
    TranspositionTableEntry {
        depth,
        score,
        best_move: Some(mv(12, 28)),
        entry_type: TranspositionTableEntryType::LowerBound,
        pv: vec![mv(12, 28), mv(52, 36), Move { from: 48, to: 56, promotion: Some(Piece::Queen) }],
        hash,
    }
}

#[test]
fn threefold_needs_three_occurrences() {
    assert!(!is_threefold(7, &[]));
    assert!(!is_threefold(7, &[7]));
    assert!(!is_threefold(7, &[7, 1, 7]));
    assert!(is_threefold(7, &[7, 1, 7, 2, 7]));
    assert!(is_threefold(7, &[7, 7, 7, 7]));
    assert!(!is_threefold(8, &[7, 7, 7, 7]));
}

#[test]
fn threefold_counts_only_the_given_hash() {
    let history = [1u64, 2, 3, 1, 2, 3, 1, 2];
    assert!(is_threefold(1, &history));
    assert!(is_threefold(2, &history));
    assert!(!is_threefold(3, &history));
    assert!(!is_threefold(u64::MAX, &history));
}

#[test]
fn table_round_trip_returns_every_field() {
    let mut table = TranspositionTable::new(16);
    let hash = 0xDEAD_BEEF_0123_4567u64;
    table.insert(hash, entry(hash, 5, -321));
    let found = table.get(hash).expect("the entry was stored");
    assert_eq!(found.depth, 5);
    assert_eq!(found.score, -321);
    assert_eq!(found.entry_type, TranspositionTableEntryType::LowerBound);
    assert_eq!(found.best_move, Some(mv(12, 28)));
    assert_eq!(
        found.pv,
        vec![mv(12, 28), mv(52, 36), Move { from: 48, to: 56, promotion: Some(Piece::Queen) }]
    );
    assert_eq!(found.hash, hash);
}

#[test]
fn table_starts_empty() {
    let table = TranspositionTable::new(8);
    for hash in 0..64u64 {
        assert!(table.get(hash).is_none());
    }
}

#[test]
fn table_rejects_a_colliding_hash() {
    let mut table = TranspositionTable::new(16);
    table.insert(3, entry(3, 4, 10));
    // 19 falls into the same slot as 3 in a table of 16 slots.
    assert!(table.get(19).is_none());
    assert!(table.get(3).is_some());
}

#[test]
fn table_keeps_the_deeper_entry() {
    let mut table = TranspositionTable::new(16);
    table.insert(3, entry(3, 6, 10));
    table.insert(3, entry(3, 5, 99));
    assert_eq!(table.get(3).unwrap().score, 10);
    assert_eq!(table.get(3).unwrap().depth, 6);
    // A colliding shallower entry does not take the slot either.
    table.insert(19, entry(19, 2, 77));
    assert!(table.get(19).is_none());
    assert_eq!(table.get(3).unwrap().score, 10);
}

#[test]
fn table_replaces_an_entry_of_equal_or_lesser_depth() {
    let mut table = TranspositionTable::new(16);
    table.insert(3, entry(3, 4, 10));
    table.insert(3, entry(3, 4, 20));
    assert_eq!(table.get(3).unwrap().score, 20);
    table.insert(19, entry(19, 7, 30));
    assert!(table.get(3).is_none());
    assert_eq!(table.get(19).unwrap().score, 30);
}

#[test]
fn table_len_and_clear() {
    let mut table = TranspositionTable::new(32);
    assert_eq!(table.len(), 32);
    table.insert(1, entry(1, 1, 1));
    table.insert(2, entry(2, 1, 2));
    assert!(table.get(1).is_some());
    table.clear();
    assert_eq!(table.len(), 32);
    assert!(table.get(1).is_none());
    assert!(table.get(2).is_none());
    table.insert(1, entry(1, 0, 5));
    assert_eq!(table.get(1).unwrap().score, 5);
}

#[test]
fn table_of_one_slot_holds_one_entry() {
    let mut table = TranspositionTable::new(1);
    table.insert(10, entry(10, 1, 1));
    assert!(table.get(10).is_some());
    assert!(table.get(11).is_none());
    table.insert(11, entry(11, 1, 2));
    assert!(table.get(10).is_none());
    assert_eq!(table.get(11).unwrap().score, 2);
}

#[test]
fn killer_moves_keep_the_last_thirty_two() {
    let mut killers: HashMap<u8, Vec<Move>> = HashMap::new();
    assert!(killers_at(&killers, 0).is_empty());
    assert!(killers_at(&killers, 255).is_empty());
    for i in 0..40u8 {
        remember_killer(&mut killers, 3, mv(i, i + 1));
    }
    let line = killers_at(&killers, 3);
    assert_eq!(line.len(), 32);
    assert_eq!(line[0], mv(8, 9));
    assert_eq!(line[31], mv(39, 40));
    assert_eq!(killers.get(&3), Some(&line));
    assert!(killers_at(&killers, 2).is_empty());
    assert!(killers_at(&killers, 4).is_empty());
    assert_eq!(killers.len(), 1);
}

#[test]
fn killer_moves_keep_the_order_of_arrival() {
    let mut killers: HashMap<u8, Vec<Move>> = HashMap::new();
    remember_killer(&mut killers, 0, mv(1, 2));
    remember_killer(&mut killers, 0, mv(3, 4));
    remember_killer(&mut killers, 255, mv(5, 6));
    assert_eq!(killers_at(&killers, 0), vec![mv(1, 2), mv(3, 4)]);
    assert_eq!(killers_at(&killers, 255), vec![mv(5, 6)]);
}

#[test]
fn a_line_that_is_too_long_loses_one_move_at_a_time() {
    let mut killers: HashMap<u8, Vec<Move>> = HashMap::new();
    killers.insert(1, (0..40u8).map(|i| mv(i, i)).collect());
    remember_killer(&mut killers, 1, mv(50, 51));
    let line = killers_at(&killers, 1);
    assert_eq!(line.len(), 40);
    assert_eq!(line[0], mv(1, 1));
    assert_eq!(line[39], mv(50, 51));
}
