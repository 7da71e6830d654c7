use chessosity::eval::eval::eval;
use chessosity::search::mini_max::{mini_max, mini_max_after_reading};
use chessosity::search::order_moves::{move_order_score, order_moves, sort_scored, victim};
use chessosity::search::quiescence::{
    generate_captures, quiescence, quiescence_after_reading, quiescence_node, try_quiescence,
};
use chessosity::search::transposition_table::{TranspositionTable, TranspositionTableEntryType};
use chessosity::types::{Move, Piece};
use chessosity::uci::uci_command_go::Deepening;
use cozy_chess::{Board, Color, GameStatus};
use std::collections::HashMap;
use std::sync::atomic::AtomicBool;

fn board(fen: &str) -> Board {
    Board::from_fen(fen, false).expect("a valid position")
}

fn to_piece(piece: cozy_chess::Piece) -> Piece {
    match piece {
        cozy_chess::Piece::Pawn => Piece::Pawn,
        cozy_chess::Piece::Knight => Piece::Knight,
        cozy_chess::Piece::Bishop => Piece::Bishop,
        cozy_chess::Piece::Rook => Piece::Rook,
        cozy_chess::Piece::Queen => Piece::Queen,
        cozy_chess::Piece::King => Piece::King,
    }
}

fn to_move(mv: cozy_chess::Move) -> Move {
    Move { from: mv.from as u8, to: mv.to as u8, promotion: mv.promotion.map(to_piece) }
}

fn from_move(mv: Move) -> cozy_chess::Move {
    cozy_chess::Move {
        from: cozy_chess::Square::index(mv.from as usize),
        to: cozy_chess::Square::index(mv.to as usize),
        promotion: mv.promotion.map(|p| cozy_chess::Piece::index(p as usize)),
    }
}

fn parse(text: &str) -> Move {
    to_move(text.parse().expect("a move"))
}

fn legal_moves(board: &Board) -> Vec<Move> {
    let mut moves = Vec::new();
    board.generate_moves(|piece_moves| {
        for mv in piece_moves {
            moves.push(to_move(mv));
        }
        false
    });
    moves
}

fn after(board: &Board, mv: Move) -> Board {
    let mut next = board.clone();
    next.play(from_move(mv));
    next
}

/// Searches a position from the root with a fresh table.
fn root_search(board: &Board, depth: u8) -> (i32, Option<Move>, bool, Vec<Move>) {
    let mut table = TranspositionTable::new(1 << 16);
    let mut killers: HashMap<u8, Vec<Move>> = HashMap::new();
    let mut nodes = 0u64;
    let playing = AtomicBool::new(true);
    mini_max(
        board,
        &mut table,
        vec![board.hash()],
        depth,
        i32::MIN,
        i32::MAX,
        0,
        &playing,
        &mut nodes,
        &mut killers,
    )
}

/// The value of a position by plain minimax without any pruning: every
/// legal move is followed to the given depth, and the quiescence value
/// with the widest window stands at the leaves.
fn plain_minimax(board: &Board, depth: u8, ply: u8) -> i32 {
    if board.status() != GameStatus::Ongoing {
        return eval(board, ply);
    }
    if depth == 0 {
        let playing = AtomicBool::new(true);
        let mut nodes = 0u64;
        return quiescence(board, Vec::new(), i32::MIN, i32::MAX, ply, &playing, &mut nodes);
    }
    let white = board.side_to_move() == Color::White;
    let mut best = if white { i32::MIN } else { i32::MAX };
    for mv in legal_moves(board) {
        let value = plain_minimax(&after(board, mv), depth - 1, ply + 1);
        if white {
            best = best.max(value);
        } else {
            best = best.min(value);
        }
    }
    best
}

#[test]
fn start_position_depth_one() {
    let start = Board::default();
    let (score, best, stopped, pv) = root_search(&start, 1);
    assert!(!stopped);
    let best = best.expect("a move");
    let legal = legal_moves(&start);
    assert_eq!(legal.len(), 20);
    assert!(legal.contains(&best));
    assert!(score.abs() < 50, "score {}", score);
    assert_eq!(pv, vec![best]);
}

#[test]
fn start_position_depth_one_with_a_clock() {
    let start = Board::default();
    let budget = chessosity::time_manager::manage_time(&start, 180_000, 180_000, 0, 0);
    let mut table = TranspositionTable::new(1 << 12);
    let playing = AtomicBool::new(true);
    let mut search = Deepening::new(1, budget);
    assert!(search.deepen(&start, &mut table, &vec![start.hash()], &playing, 0, 0));
    assert!(!search.deepen(&start, &mut table, &vec![start.hash()], &playing, 0, 0));
    let best = search.best_move.expect("a move");
    assert!(legal_moves(&start).contains(&best));
    assert!(search.best_score.unwrap().abs() < 50);
    assert_eq!(search.completed, 1);
}

#[test]
fn back_rank_mate_in_one_is_found() {
    let b = board("6k1/5ppp/8/8/8/8/8/R3K3 w - - 0 1");
    for depth in 1..=3u8 {
        let (score, best, stopped, pv) = root_search(&b, depth);
        assert!(!stopped);
        assert_eq!(best, Some(parse("a1a8")), "depth {}", depth);
        assert_eq!(score, 1_000_000 - 1_000, "depth {}", depth);
        assert_eq!(pv, vec![parse("a1a8")]);
    }
}

#[test]
fn mate_in_one_for_black_is_found() {
    let b = board("r3k3/8/8/8/8/8/5PPP/6K1 b - - 0 1");
    let (score, best, stopped, _) = root_search(&b, 2);
    assert!(!stopped);
    assert_eq!(best, Some(parse("a8a1")));
    assert_eq!(score, -999_000);
}

#[test]
fn nearer_mate_scores_higher() {
    let in_one = board("6k1/5ppp/8/8/8/8/8/R3K3 w - - 0 1");
    let in_three = board("7k/8/5K2/8/8/8/8/6R1 w - - 0 1");
    let (near, _, _, _) = root_search(&in_one, 5);
    let (far, best, stopped, pv) = root_search(&in_three, 5);
    assert!(!stopped);
    assert_eq!(near, 999_000);
    assert_eq!(far, 997_000);
    assert!(near.abs() > far.abs());
    assert_eq!(best, Some(parse("f6f7")));
    assert_eq!(pv, vec![parse("f6f7"), parse("h8h7"), parse("g1h1")]);
}

#[test]
fn third_repetition_scores_zero() {
    // White is a queen up, yet the position has been on the board three times.
    let b = board("4k3/8/8/8/8/8/8/3QK3 w - - 10 40");
    let h = b.hash();
    let mut table = TranspositionTable::new(1 << 10);
    let mut killers: HashMap<u8, Vec<Move>> = HashMap::new();
    let mut nodes = 0u64;
    let playing = AtomicBool::new(true);
    let repeated = mini_max(
        &b,
        &mut table,
        vec![h, 1, h, 2, h],
        3,
        i32::MIN,
        i32::MAX,
        0,
        &playing,
        &mut nodes,
        &mut killers,
    );
    assert_eq!(repeated, (0, None, false, vec![]));
    assert_eq!(nodes, 0);
    let twice = mini_max(
        &b,
        &mut table,
        vec![h, 1, h],
        1,
        i32::MIN,
        i32::MAX,
        0,
        &playing,
        &mut nodes,
        &mut killers,
    );
    assert!(twice.0 > 800);
    assert!(twice.1.is_some());
}

#[test]
fn repetition_inside_the_tree_scores_zero() {
    // After Kf7 Kh7 the kings can go back; with the root and the position
    // after two more half-moves already twice in the history, any line that
    // returns to the root position is a draw, so the search must not pick it.
    let b = board("7k/8/5K2/8/8/8/8/6R1 w - - 0 1");
    let h = b.hash();
    let (score, best, _, _) = {
        let mut table = TranspositionTable::new(1 << 12);
        let mut killers: HashMap<u8, Vec<Move>> = HashMap::new();
        let mut nodes = 0u64;
        let playing = AtomicBool::new(true);
        mini_max(
            &b,
            &mut table,
            vec![h, h],
            5,
            i32::MIN,
            i32::MAX,
            0,
            &playing,
            &mut nodes,
            &mut killers,
        )
    };
    assert_eq!(score, 997_000);
    assert_eq!(best, Some(parse("f6f7")));
}

#[test]
fn alpha_beta_equals_plain_minimax() {
    // Kings in opposite corners and a blocked pair of pawns: three moves
    // each for the first two half-moves.
    let b = board("k7/8/8/7p/7P/8/8/K7 w - - 0 1");
    for depth in 1..=3u8 {
        let expected = plain_minimax(&b, depth, 0);
        let (score, best, stopped, _) = root_search(&b, depth);
        assert!(!stopped);
        assert_eq!(score, expected, "depth {}", depth);
        let best = best.expect("a move");
        let attaining: Vec<Move> = legal_moves(&b)
            .into_iter()
            .filter(|&mv| plain_minimax(&after(&b, mv), depth - 1, 1) == expected)
            .collect();
        assert!(attaining.contains(&best), "depth {}", depth);
    }
}

#[test]
fn alpha_beta_equals_plain_minimax_for_black() {
    let b = board("k7/8/8/7p/7P/8/8/K7 b - - 0 1");
    for depth in 1..=3u8 {
        let expected = plain_minimax(&b, depth, 0);
        let (score, best, _, _) = root_search(&b, depth);
        assert_eq!(score, expected, "depth {}", depth);
        let best = best.expect("a move");
        let attaining: Vec<Move> = legal_moves(&b)
            .into_iter()
            .filter(|&mv| plain_minimax(&after(&b, mv), depth - 1, 1) == expected)
            .collect();
        assert!(attaining.contains(&best));
    }
}

#[test]
fn a_lowered_flag_stops_the_search() {
    let start = Board::default();
    let mut table = TranspositionTable::new(1 << 10);
    let mut killers: HashMap<u8, Vec<Move>> = HashMap::new();
    let mut nodes = 5u64;
    let playing = AtomicBool::new(false);
    let result = mini_max(
        &start,
        &mut table,
        vec![start.hash()],
        3,
        i32::MIN,
        i32::MAX,
        0,
        &playing,
        &mut nodes,
        &mut killers,
    );
    assert_eq!(result, (0, None, true, vec![]));
    assert_eq!(nodes, 5);
    assert!(table.get(start.hash()).is_none());
}

#[test]
fn a_stopped_depth_is_discarded() {
    let start = Board::default();
    let history = vec![start.hash()];
    let mut table = TranspositionTable::new(1 << 12);
    let playing = AtomicBool::new(true);
    let mut search = Deepening::new(64, 0);
    assert!(search.deepen(&start, &mut table, &history, &playing, 0, 0));
    let best = search.best_move;
    let score = search.best_score;
    let pv = search.best_pv.clone();
    let nodes = search.node_count;
    assert!(best.is_some());
    playing.store(false, std::sync::atomic::Ordering::SeqCst);
    assert!(!search.deepen(&start, &mut table, &history, &playing, 1, 1));
    assert_eq!(search.best_move, best);
    assert_eq!(search.best_score, score);
    assert_eq!(search.best_pv, pv);
    assert_eq!(search.node_count, nodes);
    assert_eq!(search.completed, 1);
}

#[test]
fn a_search_stopped_before_depth_one_has_no_move() {
    let start = Board::default();
    let mut table = TranspositionTable::new(1 << 10);
    let playing = AtomicBool::new(false);
    let mut search = Deepening::new(64, 1000);
    assert!(!search.deepen(&start, &mut table, &vec![start.hash()], &playing, 0, 0));
    assert_eq!(search.best_move, None);
    assert_eq!(search.best_score, None);
    assert!(search.best_pv.is_empty());
    assert_eq!(search.completed, 0);
}

#[test]
fn deepening_respects_depth_and_time() {
    let start = Board::default();
    let history = vec![start.hash()];
    let mut table = TranspositionTable::new(1 << 12);
    let playing = AtomicBool::new(true);
    let mut search = Deepening::new(2, 1000);
    // Before the first depth nothing has been spent.
    assert!(search.should_deepen(0, 0));
    assert!(search.should_deepen(0, 5000));
    // Five times the last depth must fit into what is left.
    assert!(search.should_deepen(180, 100));
    assert!(!search.should_deepen(180, 190));
    assert!(search.should_deepen(162, 190));
    assert!(!search.should_deepen(163, 190));
    assert!(search.should_deepen(200, 0));
    assert!(!search.should_deepen(201, 0));
    assert!(!search.should_deepen(1, 1000));
    assert!(!search.should_deepen(1, 2000));
    assert!(!search.should_deepen(u64::MAX, 0));
    // The last depth took 180 of the 190 ms passed: another would not fit.
    assert!(!search.deepen(&start, &mut table, &history, &playing, 180, 190));
    assert_eq!(search.completed, 0);
    assert!(search.deepen(&start, &mut table, &history, &playing, 0, 0));
    assert!(search.deepen(&start, &mut table, &history, &playing, 100, 200));
    assert_eq!(search.completed, 2);
    // The depth limit is reached.
    assert!(!search.should_deepen(0, 0));
    assert!(!search.deepen(&start, &mut table, &history, &playing, 0, 0));
    // Without a budget the time plays no part.
    let unlimited = Deepening::new(3, 0);
    assert!(unlimited.should_deepen(u64::MAX, u64::MAX));
}

#[test]
fn search_stores_its_result_in_the_table() {
    let b = board("6k1/5ppp/8/8/8/8/8/R3K3 w - - 0 1");
    let mut table = TranspositionTable::new(1 << 12);
    let mut killers: HashMap<u8, Vec<Move>> = HashMap::new();
    let mut nodes = 0u64;
    let playing = AtomicBool::new(true);
    let result = mini_max(
        &b,
        &mut table,
        vec![b.hash()],
        2,
        i32::MIN,
        i32::MAX,
        0,
        &playing,
        &mut nodes,
        &mut killers,
    );
    let stored = table.get(b.hash()).expect("the root was stored");
    assert_eq!(stored.depth, 2);
    assert_eq!(stored.score, result.0);
    assert_eq!(stored.best_move, result.1);
    assert_eq!(stored.pv, result.3);
    assert_eq!(stored.hash, b.hash());
    // A mate score is stored as exact.
    assert_eq!(stored.entry_type, TranspositionTableEntryType::Exact);
    assert!(nodes > 0);
}

#[test]
fn quiet_position_stands_pat() {
    let quiet = board("k7/8/8/7p/7P/8/8/K7 w - - 0 1");
    assert!(generate_captures(&quiet).is_empty());
    let playing = AtomicBool::new(true);
    let mut nodes = 0u64;
    let value = quiescence(&quiet, vec![], i32::MIN, i32::MAX, 0, &playing, &mut nodes);
    assert_eq!(value, eval(&quiet, 0));
    assert_eq!(nodes, 1);
    // The start position has no captures either.
    let start = Board::default();
    let value = quiescence(&start, vec![], -1000, 1000, 4, &playing, &mut nodes);
    assert_eq!(value, eval(&start, 4));
    assert_eq!(nodes, 2);
}

#[test]
fn quiescence_keeps_to_its_window() {
    let quiet = board("k7/8/8/7p/7P/8/8/K7 w - - 0 1");
    let playing = AtomicBool::new(true);
    let mut nodes = 0u64;
    let static_score = eval(&quiet, 0);
    let above = static_score + 10;
    let below = static_score - 10;
    // White to move fails high at beta.
    assert_eq!(quiescence(&quiet, vec![], below - 5, below, 0, &playing, &mut nodes), below);
    // White to move cannot fall below alpha.
    assert_eq!(quiescence(&quiet, vec![], above, above + 5, 0, &playing, &mut nodes), above);
}

#[test]
fn quiescence_wins_a_hanging_queen() {
    // White to move can take the queen on d5 with the pawn on e4.
    let b = board("4k3/8/8/3q4/4P3/8/8/4K3 w - - 0 1");
    let playing = AtomicBool::new(true);
    let mut nodes = 0u64;
    let value = quiescence(&b, vec![], i32::MIN, i32::MAX, 0, &playing, &mut nodes);
    let taken = after(&b, parse("e4d5"));
    assert_eq!(value, eval(&taken, 1));
    assert!(value > eval(&b, 0));
    assert_eq!(nodes, 2);
    assert_eq!(generate_captures(&b), vec![parse("e4d5")]);
}

#[test]
fn quiescence_stopped_returns_zero() {
    let b = board("4k3/8/8/3q4/4P3/8/8/4K3 w - - 0 1");
    let stopped = AtomicBool::new(false);
    let mut nodes = 0u64;
    assert_eq!(quiescence(&b, vec![], i32::MIN, i32::MAX, 0, &stopped, &mut nodes), 0);
    assert_eq!(try_quiescence(&b, i32::MIN, i32::MAX, 0, &stopped, &mut nodes), None);
    assert_eq!(nodes, 0);
}

#[test]
fn captures_are_ordered_by_victim() {
    // The white queen on d4 can take a pawn on d5, a rook on a4 or a knight on g7.
    let b = board("4k3/6n1/8/3p4/r2Q4/8/8/4K3 w - - 0 1");
    let captures = generate_captures(&b);
    assert_eq!(captures, vec![parse("d4a4"), parse("d4g7"), parse("d4d5")]);
}

#[test]
fn order_scores_by_hand() {
    // After 1. e4 d5: the pawn can take, the bishop can give check.
    let b = board("rnbqkbnr/ppp1pppp/8/3p4/4P3/8/PPPP1PPP/RNBQKBNR w KQkq - 0 2");
    let none: Vec<Move> = vec![];
    assert_eq!(move_order_score(&b, &parse("e4d5"), &none), 80 * 10 - 80);
    assert_eq!(move_order_score(&b, &parse("f1b5"), &none), 100_000);
    assert_eq!(move_order_score(&b, &parse("a2a3"), &none), 0);
    let killers = vec![parse("a2a3"), parse("e4d5")];
    assert_eq!(move_order_score(&b, &parse("a2a3"), &killers), 1_000_000);
    assert_eq!(move_order_score(&b, &parse("e4d5"), &killers), 1_000_720);
    assert_eq!(move_order_score(&b, &parse("b2b3"), &killers), 0);
    // A queen taking a pawn: 800 - 900.
    let q = board("4k3/8/8/3p4/3Q4/8/8/4K3 w - - 0 1");
    assert_eq!(move_order_score(&q, &parse("d4d5"), &none), -100);
}

#[test]
fn moves_are_ordered_by_score_and_ties_keep_their_order() {
    let b = board("rnbqkbnr/ppp1pppp/8/3p4/4P3/8/PPPP1PPP/RNBQKBNR w KQkq - 0 2");
    let legal = legal_moves(&b);
    let killers = vec![parse("g1f3")];
    let ordered = order_moves(&b, legal.clone(), &killers);
    assert_eq!(ordered.len(), legal.len());
    assert_eq!(ordered[0], parse("g1f3"));
    assert_eq!(ordered[1], parse("f1b5"));
    assert_eq!(ordered[2], parse("e4d5"));
    let rest: Vec<Move> = legal
        .iter()
        .copied()
        .filter(|mv| ![parse("g1f3"), parse("f1b5"), parse("e4d5")].contains(mv))
        .collect();
    assert_eq!(&ordered[3..], &rest[..]);
}

#[test]
fn sorting_is_stable_and_descending() {
    let m = |i: u8| Move { from: i, to: i, promotion: None };
    let items = vec![(m(0), 5), (m(1), 9), (m(2), 5), (m(3), -1), (m(4), 9), (m(5), 5)];
    let sorted = sort_scored(&items);
    assert_eq!(
        sorted,
        vec![(m(1), 9), (m(4), 9), (m(0), 5), (m(2), 5), (m(5), 5), (m(3), -1)]
    );
    assert_eq!(sort_scored(&vec![]), vec![]);
}

#[test]
fn a_fail_low_is_stored_as_an_upper_bound() {
    let start = Board::default();
    let mut table = TranspositionTable::new(1 << 12);
    let mut killers: HashMap<u8, Vec<Move>> = HashMap::new();
    let mut nodes = 0u64;
    let playing = AtomicBool::new(true);
    let (score, best, stopped, _) = mini_max(
        &start,
        &mut table,
        vec![start.hash()],
        1,
        1000,
        2000,
        0,
        &playing,
        &mut nodes,
        &mut killers,
    );
    assert!(!stopped);
    assert!(score <= 1000);
    let stored = table.get(start.hash()).expect("the root was stored");
    assert_eq!(stored.entry_type, TranspositionTableEntryType::UpperBound);
    assert_eq!(stored.score, score);
    assert_eq!(stored.best_move, best);
    assert!(killers.is_empty());
}

#[test]
fn a_fail_high_is_stored_as_a_lower_bound_and_remembered() {
    let start = Board::default();
    let mut table = TranspositionTable::new(1 << 12);
    let mut killers: HashMap<u8, Vec<Move>> = HashMap::new();
    let mut nodes = 0u64;
    let playing = AtomicBool::new(true);
    let (score, best, stopped, pv) = mini_max(
        &start,
        &mut table,
        vec![start.hash()],
        1,
        -2000,
        -1000,
        0,
        &playing,
        &mut nodes,
        &mut killers,
    );
    assert!(!stopped);
    assert!(score >= -1000);
    let best = best.expect("a move");
    // The first move tried already cuts the node short.
    assert_eq!(pv, vec![best]);
    assert_eq!(nodes, 2);
    let stored = table.get(start.hash()).expect("the root was stored");
    assert_eq!(stored.entry_type, TranspositionTableEntryType::LowerBound);
    assert_eq!(killers.get(&0), Some(&vec![best]));
    assert!(killers.get(&1).is_none());
}

#[test]
fn an_inner_score_is_stored_as_exact_and_used_again() {
    let b = board("k7/8/8/7p/7P/8/8/K7 w - - 0 1");
    let mut table = TranspositionTable::new(1 << 12);
    let mut killers: HashMap<u8, Vec<Move>> = HashMap::new();
    let mut nodes = 0u64;
    let playing = AtomicBool::new(true);
    let first = mini_max(
        &b,
        &mut table,
        vec![b.hash()],
        2,
        i32::MIN,
        i32::MAX,
        0,
        &playing,
        &mut nodes,
        &mut killers,
    );
    let stored = table.get(b.hash()).expect("the root was stored");
    assert_eq!(stored.entry_type, TranspositionTableEntryType::Exact);
    assert_eq!(stored.depth, 2);
    // A search that is no deeper is answered from the table: no node is added.
    let before = nodes;
    let again = mini_max(
        &b,
        &mut table,
        vec![b.hash()],
        1,
        i32::MIN,
        i32::MAX,
        0,
        &playing,
        &mut nodes,
        &mut killers,
    );
    assert_eq!(again, first);
    assert_eq!(nodes, before);
    // A deeper search is not.
    let deeper = mini_max(
        &b,
        &mut table,
        vec![b.hash()],
        3,
        i32::MIN,
        i32::MAX,
        0,
        &playing,
        &mut nodes,
        &mut killers,
    );
    assert!(nodes > before);
    assert_eq!(table.get(b.hash()).unwrap().depth, 3);
    assert_eq!(table.get(b.hash()).unwrap().score, deeper.0);
}

#[test]
fn a_stored_mate_is_searched_again() {
    let b = board("6k1/5ppp/8/8/8/8/8/R3K3 w - - 0 1");
    let mut table = TranspositionTable::new(1 << 12);
    let mut killers: HashMap<u8, Vec<Move>> = HashMap::new();
    let mut nodes = 0u64;
    let playing = AtomicBool::new(true);
    let first = mini_max(
        &b,
        &mut table,
        vec![b.hash()],
        2,
        i32::MIN,
        i32::MAX,
        0,
        &playing,
        &mut nodes,
        &mut killers,
    );
    assert_eq!(first.0, 999_000);
    let before = nodes;
    // Three half-moves from the root the same mate is worth less.
    let later = mini_max(
        &b,
        &mut table,
        vec![b.hash()],
        2,
        i32::MIN,
        i32::MAX,
        2,
        &playing,
        &mut nodes,
        &mut killers,
    );
    assert!(nodes > before);
    assert_eq!(later.0, 997_000);
    assert_eq!(later.1, Some(parse("a1a8")));
}

#[test]
fn a_finished_game_is_scored_at_once() {
    let mated = board("R5k1/5ppp/8/8/8/8/8/4K3 b - - 1 1");
    let (score, best, stopped, pv) = root_search(&mated, 4);
    assert_eq!((score, best, stopped, pv), (1_000_000, None, false, vec![]));
    let stalemate = board("7k/5Q2/6K1/8/8/8/8/8 b - - 0 1");
    assert_eq!(root_search(&stalemate, 4), (0, None, false, vec![]));
}

#[test]
fn the_deepest_half_move_is_a_leaf() {
    let start = Board::default();
    let mut table = TranspositionTable::new(1 << 10);
    let mut killers: HashMap<u8, Vec<Move>> = HashMap::new();
    let mut nodes = 0u64;
    let playing = AtomicBool::new(true);
    let result = mini_max(
        &start,
        &mut table,
        vec![start.hash()],
        5,
        i32::MIN,
        i32::MAX,
        100,
        &playing,
        &mut nodes,
        &mut killers,
    );
    assert_eq!(result, (0, None, false, vec![]));
    assert_eq!(nodes, 1);
    let hanging = board("4k3/8/8/3q4/4P3/8/8/4K3 w - - 0 1");
    let mut nodes = 0u64;
    let held_back = quiescence(&hanging, vec![], i32::MIN, i32::MAX, 100, &playing, &mut nodes);
    assert_eq!(held_back, eval(&hanging, 100));
    assert_eq!(nodes, 1);
}

#[test]
fn the_flag_is_raised_and_lowered() {
    let flag = AtomicBool::new(false);
    assert!(!chessosity::search::stop::still_playing(&flag));
    chessosity::search::stop::start_playing(&flag);
    assert!(chessosity::search::stop::still_playing(&flag));
    chessosity::search::stop::stop_playing(&flag);
    assert!(!chessosity::search::stop::still_playing(&flag));
}

#[test]
fn one_half_move_deep_the_search_is_plain_minimax() {
    for fen in [
        "rnbqkbnr/pppppppp/8/8/8/8/PPPPPPPP/RNBQKBNR w KQkq - 0 1",
        "rnbqkbnr/ppp1pppp/8/3p4/4P3/8/PPPP1PPP/RNBQKBNR w KQkq - 0 2",
        "r3k2r/p1ppqpb1/bn2pnp1/3PN3/1p2P3/2N2Q1p/PPPBBPPP/R3K2R w KQkq - 0 1",
        "r3k2r/p1ppqpb1/bn2pnp1/3PN3/1p2P3/2N2Q1p/PPPBBPPP/R3K2R b KQkq - 0 1",
        "4k3/8/8/3q4/4P3/8/8/4K3 w - - 0 1",
        "6k1/5ppp/8/8/8/8/8/R3K3 w - - 0 1",
    ] {
        let b = board(fen);
        let expected = plain_minimax(&b, 1, 0);
        let (score, best, stopped, _) = root_search(&b, 1);
        assert!(!stopped);
        assert_eq!(score, expected, "{}", fen);
        let best = best.expect("a move");
        assert_eq!(plain_minimax(&after(&b, best), 0, 1), expected, "{}", fen);
    }
}

#[test]
fn a_quiescence_node_goes_by_the_reading_it_is_given() {
    let quiet = board("k7/8/8/7p/7P/8/8/K7 w - - 0 1");
    let hanging = board("4k3/8/8/3q4/4P3/8/8/4K3 w - - 0 1");
    let raised = AtomicBool::new(true);
    let lowered = AtomicBool::new(false);
    // Read as lowered, the node stops at once and counts nothing.
    let mut nodes = 4u64;
    assert_eq!(quiescence_node(&quiet, i32::MIN, i32::MAX, 0, false, &raised, &mut nodes), None);
    assert_eq!(nodes, 4);
    assert_eq!(quiescence_after_reading(&quiet, -9, 9, 0, false, &raised, &mut nodes), 0);
    assert_eq!(nodes, 4);
    // Read as raised, a node without captures comes to its value whatever
    // the flag does later.
    assert_eq!(
        quiescence_node(&quiet, i32::MIN, i32::MAX, 0, true, &lowered, &mut nodes),
        Some(eval(&quiet, 0))
    );
    assert_eq!(nodes, 5);
    // So does a node that stands pat at once, and a node at the last half-move.
    let static_score = eval(&hanging, 0);
    assert_eq!(
        quiescence_node(&hanging, i32::MIN, static_score - 1, 0, true, &lowered, &mut nodes),
        Some(static_score - 1)
    );
    assert_eq!(
        quiescence_node(&hanging, i32::MIN, i32::MAX, 100, true, &lowered, &mut nodes),
        Some(eval(&hanging, 100))
    );
    assert_eq!(nodes, 7);
    // Where a capture is answered, the answer reads the flag anew.
    assert_eq!(quiescence_node(&hanging, i32::MIN, i32::MAX, 0, true, &lowered, &mut nodes), None);
    assert_eq!(nodes, 8);
    assert_eq!(
        quiescence_after_reading(&hanging, i32::MIN, i32::MAX, 0, true, &lowered, &mut nodes),
        0
    );
    let taken = after(&hanging, parse("e4d5"));
    assert_eq!(
        quiescence_node(&hanging, i32::MIN, i32::MAX, 0, true, &raised, &mut nodes),
        Some(eval(&taken, 1))
    );
    assert_eq!(
        quiescence_after_reading(&hanging, i32::MIN, i32::MAX, 0, true, &raised, &mut nodes),
        eval(&taken, 1)
    );
}

#[test]
fn a_depth_is_adopted_or_discarded() {
    let mut search = Deepening::new(3, 0);
    // A depth that found a move is counted and adopted.
    assert!(search.adopt((25, Some(parse("e2e4")), false, vec![parse("e2e4")]), 21));
    assert_eq!(search.completed, 1);
    assert_eq!(search.node_count, 21);
    assert_eq!(search.best_move, Some(parse("e2e4")));
    assert_eq!(search.best_score, Some(25));
    assert_eq!(search.best_pv, vec![parse("e2e4")]);
    // A stopped depth changes nothing, whatever it brings.
    assert!(!search.adopt((0, None, true, vec![]), 500));
    assert!(!search.adopt((99, Some(parse("d2d4")), true, vec![parse("d2d4")]), 500));
    assert_eq!(search.completed, 1);
    assert_eq!(search.node_count, 21);
    assert_eq!(search.best_move, Some(parse("e2e4")));
    assert_eq!(search.best_score, Some(25));
    // A depth that found no move is counted and leaves the best in place.
    assert!(search.adopt((7, None, false, vec![]), 60));
    assert_eq!(search.completed, 2);
    assert_eq!(search.node_count, 60);
    assert_eq!(search.best_move, Some(parse("e2e4")));
    assert_eq!(search.best_score, Some(25));
    assert_eq!(search.best_pv, vec![parse("e2e4")]);
    assert_eq!(search.max_depth, 3);
    assert_eq!(search.time, 0);
}

#[test]
fn no_depth_wanted_leaves_the_table_alone() {
    let start = Board::default();
    let mut table = TranspositionTable::new(1 << 10);
    let playing = AtomicBool::new(true);
    let mut search = Deepening::new(0, 0);
    assert!(!search.deepen_after_reading(&start, &mut table, &vec![start.hash()], true, &playing, 0, 0));
    assert!(table.get(start.hash()).is_none());
    let mut timed = Deepening::new(5, 100);
    assert!(!timed.deepen_after_reading(&start, &mut table, &vec![start.hash()], true, &playing, 21, 0));
    assert!(table.get(start.hash()).is_none());
    assert_eq!(timed.completed, 0);
}

#[test]
fn a_depth_goes_by_the_reading_it_is_given() {
    let start = Board::default();
    let history = vec![start.hash()];
    let mut table = TranspositionTable::new(1 << 10);
    let raised = AtomicBool::new(true);
    let lowered = AtomicBool::new(false);
    let mut search = Deepening::new(2, 0);
    // Read as lowered, nothing is searched and nothing changes.
    assert!(!search.deepen_after_reading(&start, &mut table, &history, false, &raised, 0, 0));
    assert_eq!(search.completed, 0);
    assert_eq!(search.node_count, 0);
    assert_eq!(search.best_move, None);
    assert!(table.get(start.hash()).is_none());
    // Read as raised, the depth is searched; the search reads the flag anew.
    assert!(!search.deepen_after_reading(&start, &mut table, &history, true, &lowered, 0, 0));
    assert_eq!(search.completed, 0);
    assert!(search.deepen_after_reading(&start, &mut table, &history, true, &raised, 0, 0));
    assert_eq!(search.completed, 1);
    assert!(search.best_move.is_some());
    assert!(table.get(start.hash()).is_some());
    assert!(search.deepen(&start, &mut table, &history, &raised, 0, 0));
    // No depth is left.
    assert!(!search.deepen_after_reading(&start, &mut table, &history, true, &raised, 0, 0));
    assert_eq!(search.completed, 2);
}

#[test]
fn a_search_node_goes_by_the_reading_it_is_given() {
    let start = Board::default();
    let raised = AtomicBool::new(true);
    let lowered = AtomicBool::new(false);
    let mut table = TranspositionTable::new(1 << 10);
    let mut killers: HashMap<u8, Vec<Move>> = HashMap::new();
    killers.insert(0, vec![parse("e2e4")]);
    let mut nodes = 9u64;
    // Read as lowered, the node stops at once: nothing is stored, counted
    // or remembered.
    let stopped = mini_max_after_reading(
        &start, &mut table, vec![start.hash()], 2, i32::MIN, i32::MAX, 0, false, &raised,
        &mut nodes, &mut killers,
    );
    assert_eq!(stopped, (0, None, true, vec![]));
    assert_eq!(nodes, 9);
    assert!(table.get(start.hash()).is_none());
    assert_eq!(killers.len(), 1);
    assert_eq!(killers.get(&0), Some(&vec![parse("e2e4")]));
    // Read as raised, a position seen three times scores 0 unstopped,
    // whatever the flag does later.
    let queen_up = board("4k3/8/8/8/8/8/8/Q3K3 w - - 0 1");
    let h = queen_up.hash();
    let seen = mini_max_after_reading(
        &queen_up, &mut table, vec![h, h, h], 0, i32::MIN, i32::MAX, 0, true, &lowered,
        &mut nodes, &mut killers,
    );
    assert_eq!(seen, (0, None, false, vec![]));
    let seen_deep = mini_max_after_reading(
        &queen_up, &mut table, vec![h, h, h], 4, i32::MIN, i32::MAX, 0, true, &lowered,
        &mut nodes, &mut killers,
    );
    assert_eq!(seen_deep, (0, None, false, vec![]));
    assert_eq!(nodes, 9);
    // So does a finished game, and a quiet node at the horizon.
    let mated = board("R5k1/5ppp/8/8/8/8/8/4K3 b - - 1 1");
    let over = mini_max_after_reading(
        &mated, &mut table, vec![], 3, i32::MIN, i32::MAX, 1, true, &lowered, &mut nodes,
        &mut killers,
    );
    assert_eq!(over, (999_000, None, false, vec![]));
    let quiet = mini_max_after_reading(
        &start, &mut table, vec![], 0, i32::MIN, i32::MAX, 0, true, &lowered, &mut nodes,
        &mut killers,
    );
    assert_eq!(quiet, (eval(&start, 0), None, false, vec![]));
    assert_eq!(nodes, 10);
    // Where moves are searched, each reads the flag anew.
    let deeper = mini_max_after_reading(
        &start, &mut table, vec![], 1, i32::MIN, i32::MAX, 0, true, &lowered, &mut nodes,
        &mut killers,
    );
    assert_eq!(deeper, (0, None, true, vec![]));
    let found = mini_max_after_reading(
        &start, &mut table, vec![], 1, i32::MIN, i32::MAX, 0, true, &raised, &mut nodes,
        &mut killers,
    );
    assert!(!found.2);
    assert!(found.1.is_some());
    // The table now settles the node, flag or no flag.
    let settled = mini_max_after_reading(
        &start, &mut table, vec![], 1, i32::MIN, i32::MAX, 0, true, &lowered, &mut nodes,
        &mut killers,
    );
    assert_eq!(settled, found);
}

#[test]
fn killer_lines_nearer_the_root_stay() {
    let start = Board::default();
    let raised = AtomicBool::new(true);
    let mut table = TranspositionTable::new(1 << 12);
    let mut killers: HashMap<u8, Vec<Move>> = HashMap::new();
    killers.insert(0, vec![parse("a2a3")]);
    killers.insert(1, vec![parse("h2h3")]);
    killers.insert(2, vec![parse("g8f6")]);
    let mut nodes = 0u64;
    let result = mini_max(
        &start, &mut table, vec![start.hash()], 3, -20, 20, 2, &raised, &mut nodes, &mut killers,
    );
    assert!(!result.2);
    assert_eq!(killers.get(&0), Some(&vec![parse("a2a3")]));
    assert_eq!(killers.get(&1), Some(&vec![parse("h2h3")]));
    // Deeper lines only grow at the back.
    assert_eq!(killers.get(&2).unwrap()[0], parse("g8f6"));
    assert!(killers.keys().all(|&ply| ply <= 4));
}

#[test]
fn castling_takes_nothing() {
    let b = board("r3k2r/8/8/8/8/8/8/R3K2R w KQkq - 0 1");
    let none: Vec<Move> = vec![];
    // The king moves onto its own rook and takes nothing.
    assert_eq!(victim(&b, &parse("e1h1")), None);
    assert_eq!(victim(&b, &parse("e1a1")), None);
    assert_eq!(move_order_score(&b, &parse("e1h1"), &none), 0);
    assert_eq!(move_order_score(&b, &parse("e1a1"), &none), 0);
    // The rook takes the rook: ten times 470 less 470, and it gives check.
    assert_eq!(victim(&b, &parse("a1a8")), Some(Piece::Rook));
    assert_eq!(move_order_score(&b, &parse("a1a8"), &none), 4700 - 470 + 100_000);
    assert_eq!(victim(&b, &parse("e1e2")), None);
    assert_eq!(generate_captures(&b), vec![parse("a1a8"), parse("h1h8")]);
    // With castling the only move onto a piece, the position is quiet.
    let quiet = board("4k3/8/8/8/8/8/8/R3K2R w KQ - 0 1");
    assert!(generate_captures(&quiet).is_empty());
    let playing = AtomicBool::new(true);
    let mut nodes = 0u64;
    assert_eq!(
        quiescence(&quiet, vec![], i32::MIN, i32::MAX, 0, &playing, &mut nodes),
        eval(&quiet, 0)
    );
    assert_eq!(nodes, 1);
    // For Black the same.
    let black = board("r3k2r/8/8/8/8/8/8/R3K2R b KQkq - 0 1");
    assert_eq!(victim(&black, &parse("e8h8")), None);
    assert_eq!(victim(&black, &parse("h8h1")), Some(Piece::Rook));
}

#[test]
fn a_move_first_searched_less_deep_may_be_passed_over() {
    // The rook's quiet move to d7 is the nineteenth move tried. Searched
    // to the horizon alone it scores -363, which does not beat the -537
    // that the check on g7 has already secured, so it is not searched
    // again, though one half-move deeper it would score -552.
    let b = board("7k/4r3/8/8/3N4/8/rPP5/6K1 b - - 1 2");
    let ordered = order_moves(&b, legal_moves(&b), &Vec::new());
    let check = ordered.iter().position(|&mv| mv == parse("e7g7")).expect("a legal move");
    assert!(check < 3);
    assert_eq!(ordered[18], parse("e7d7"));
    assert_eq!(victim(&b, &parse("e7d7")), None);
    let next = after(&b, parse("e7d7"));
    let playing = AtomicBool::new(true);
    let mut nodes = 0u64;
    assert_eq!(quiescence(&next, Vec::new(), i32::MIN, i32::MAX, 1, &playing, &mut nodes), -363);
    assert_eq!(plain_minimax(&next, 1, 1), -552);
    assert_eq!(plain_minimax(&b, 2, 0), -552);
    let (score, best, stopped, _) = root_search(&b, 2);
    assert!(!stopped);
    assert_eq!(score, -537);
    assert_eq!(best, Some(parse("e7g7")));
    // One half-move deep nothing is searched less deep, and the search is
    // plain minimax.
    let (score, _, _, _) = root_search(&b, 1);
    assert_eq!(score, plain_minimax(&b, 1, 0));
}
