use chessosity::game::{plays_on, Game, TTStore};
use chessosity::search::{
    goes_on, minimax, minimax_node, search_best_move, CacheEntry, MoveScore, SearchBound,
};
use chessosity::types::Move;
use cozy_chess::Board;
use std::collections::HashMap;
use std::sync::atomic::{AtomicBool, Ordering};
use std::time::Instant;

fn board(fen: &str) -> Board {
    Board::from_fen(fen, false).expect("a valid position")
}

fn mv(text: &str) -> Move {
    let m: cozy_chess::Move = text.parse().expect("a move");
    Move { from: m.from as u8, to: m.to as u8, promotion: None }
}

#[test]
fn plain_evaluators_by_hand() {
    let start = Board::default();
    assert_eq!(chessosity::eval::eval(&start, 0), 0);
    let queen_up = board("rnb1kbnr/pppppppp/8/8/8/8/PPPPPPPP/RNBQKBNR w KQkq - 0 1");
    assert_eq!(chessosity::eval::eval(&queen_up, 3), 900);
    let mated = board("rnb1kbnr/pppp1ppp/8/4p3/6Pq/5P2/PPPPP2P/RNBQKBNR w KQkq - 1 3");
    assert_eq!(chessosity::eval_is_mate::eval_is_mate(&mated), -10_000);
    assert_eq!(chessosity::eval_is_mate::eval_is_mate(&start), 0);
    assert_eq!(chessosity::eval_mate_in::eval_is_mate(&mated, 0), -100_000);
    assert_eq!(chessosity::eval_mate_in::eval_is_mate(&mated, 2), -98_000);
    assert_eq!(chessosity::eval_mate_in::eval_is_mate(&start, 2), 0);
    assert_eq!(chessosity::eval::eval(&mated, 2), -98_000);
    let black_mated = board("R5k1/5ppp/8/8/8/8/8/4K3 b - - 1 1");
    assert_eq!(chessosity::eval_is_mate::eval_is_mate(&black_mated), 10_000);
    assert_eq!(chessosity::eval::eval(&black_mated, 1), 200 + 99_000);
    let stalemate = board("7k/5Q2/6K1/8/8/8/8/8 b - - 0 1");
    assert_eq!(chessosity::eval::eval(&stalemate, 0), 0);
}

#[test]
fn plain_search_finds_the_mate() {
    let b = board("6k1/5ppp/8/8/8/8/8/R3K3 w - - 0 1");
    let going = AtomicBool::new(true);
    let mut report = vec!["before".to_string()];
    let best = search_best_move(&b, 60_000, 2, &going, &mut report);
    assert_eq!(best, MoveScore { score: 100_200, mv: Some(mv("a1a8")) });
    assert_eq!(report.len(), 3);
    assert_eq!(report[0], "before");
    assert!(report[1].starts_with("info depth 1 score cp 100200 nodes "), "{}", report[1]);
    assert!(report[1].ends_with(" bestmove a1a8"), "{}", report[1]);
    assert!(report[2].starts_with("info depth 2 score cp 100200 nodes "), "{}", report[2]);
}

#[test]
fn plain_search_stopped_at_once_finds_nothing() {
    let start = Board::default();
    let stopped = AtomicBool::new(false);
    let mut report = Vec::new();
    let best = search_best_move(&start, 60_000, 5, &stopped, &mut report);
    assert_eq!(best, MoveScore { score: 0, mv: None });
    assert!(report.is_empty());
    let going = AtomicBool::new(true);
    assert_eq!(search_best_move(&start, 0, 5, &going, &mut report), MoveScore { score: 0, mv: None });
    assert_eq!(search_best_move(&start, 60_000, 0, &going, &mut report), MoveScore { score: 0, mv: None });
    assert!(report.is_empty());
}

#[test]
fn plain_search_of_one_node() {
    let b = board("6k1/5ppp/8/8/8/8/8/R3K3 w - - 0 1");
    let going = AtomicBool::new(true);
    let start = Instant::now();
    let mut nodes = 0u64;
    let mut cache: HashMap<u64, CacheEntry> = HashMap::new();
    // A leaf scores by material.
    let leaf = minimax(&b, 0, i32::MIN, i32::MAX, &start, 60_000, &mut nodes, &mut cache, &going);
    assert_eq!(leaf, Ok(MoveScore { score: 200, mv: None }));
    assert_eq!(nodes, 1);
    assert!(cache.is_empty());
    let found = minimax(&b, 1, i32::MIN, i32::MAX, &start, 60_000, &mut nodes, &mut cache, &going);
    assert_eq!(found, Ok(MoveScore { score: 100_200, mv: Some(mv("a1a8")) }));
    let entry = cache.get(&b.hash()).expect("the root was cached");
    assert_eq!(
        *entry,
        CacheEntry { val: 100_200, depth: 1, bound: SearchBound::Exact, chess_move: Some(mv("a1a8")) }
    );
    // The cached exact score answers the next search of the same depth.
    let before = nodes;
    let again = minimax(&b, 1, i32::MIN, i32::MAX, &start, 60_000, &mut nodes, &mut cache, &going);
    assert_eq!(again, found);
    assert_eq!(nodes, before + 1);
    // A lowered flag gives the search up.
    let stopped = AtomicBool::new(false);
    let given_up = minimax(&b, 1, i32::MIN, i32::MAX, &start, 60_000, &mut nodes, &mut cache, &stopped);
    assert_eq!(given_up, Err(()));
}

#[test]
fn plain_search_uses_cached_bounds() {
    let start_board = Board::default();
    let going = AtomicBool::new(true);
    let start = Instant::now();
    let mut nodes = 0u64;
    let mut cache: HashMap<u64, CacheEntry> = HashMap::new();
    cache.insert(
        start_board.hash(),
        CacheEntry { val: 50, depth: 3, bound: SearchBound::Lower, chess_move: Some(mv("e2e4")) },
    );
    // The lower bound 50 closes the window from 0 to 40.
    let cut = minimax(&start_board, 2, 0, 40, &start, 60_000, &mut nodes, &mut cache, &going);
    assert_eq!(cut, Ok(MoveScore { score: 50, mv: Some(mv("e2e4")) }));
    assert_eq!(nodes, 1);
    // An entry that is too shallow is not used.
    let searched = minimax(&start_board, 4, -1, 1, &start, 60_000, &mut nodes, &mut cache, &going);
    assert!(searched.is_ok());
    assert!(nodes > 1);
    assert_eq!(cache.get(&start_board.hash()).unwrap().depth, 4);
}

#[test]
fn a_new_game_stands_at_the_start() {
    let game = Game::new(7, 1500);
    assert_eq!(game.max_depth, 7);
    assert_eq!(game.move_time, 1500);
    assert_eq!(game.move_number, 0);
    assert_eq!(game.node_count, 0);
    assert_eq!(game.board, Board::default());
    assert!(game.tt.is_empty());
    assert!(!game.playing.load(Ordering::SeqCst));
    let b = board("6k1/5ppp/8/8/8/8/8/R3K3 w - - 0 1");
    let other = Game::new_from_board(b.clone(), 3, 0);
    assert_eq!(other.board, b);
    assert_eq!(other.max_depth, 3);
}

#[test]
fn a_game_finds_the_mate() {
    let b = board("6k1/5ppp/8/8/8/8/8/R3K3 w - - 0 1");
    let mut game = Game::new_from_board(b.clone(), 2, 0);
    game.playing.store(true, Ordering::SeqCst);
    let mut report = Vec::new();
    let best = game.go(&mut report);
    assert_eq!(best, Some(mv("a1a8")));
    assert_eq!(report.len(), 2);
    assert!(report[0].starts_with("info depth 1 score cp 99200 nodes "), "{}", report[0]);
    assert!(report[0].contains(" time "), "{}", report[0]);
    assert!(report[0].ends_with(" bestmove a1a8"), "{}", report[0]);
    assert_eq!(
        game.tt.get(&b.hash()),
        Some(&TTStore { depth: 2, score: 99_200, chess_move: mv("a1a8") })
    );
    assert!(game.node_count > 0);
}

#[test]
fn a_game_that_is_not_playing_finds_nothing() {
    let mut game = Game::new(5, 1000);
    let start = Board::default();
    assert_eq!(game.alpha_beta(&start, 2, i32::MIN, i32::MAX, 0), None);
    assert_eq!(game.node_count, 0);
    assert!(game.tt.is_empty());
}

#[test]
fn a_game_raises_the_flag_when_it_goes() {
    let b = board("6k1/5ppp/8/8/8/8/8/R3K3 w - - 0 1");
    let mut timed = Game::new_from_board(b.clone(), 1, 1000);
    let mut lines = Vec::new();
    assert_eq!(timed.go(&mut lines), Some(mv("a1a8")));
    assert!(timed.playing.load(Ordering::SeqCst));
    let mut game = Game::new_from_board(b, 1, 0);
    assert!(!game.playing.load(Ordering::SeqCst));
    let mut report = Vec::new();
    assert_eq!(game.go(&mut report), Some(mv("a1a8")));
    assert!(game.playing.load(Ordering::SeqCst));
    assert_eq!(report.len(), 1);
}

#[test]
fn a_game_searches_one_node() {
    let b = board("4k3/8/8/3q4/4P3/8/8/4K3 w - - 0 1");
    let mut game = Game::new_from_board(b.clone(), 1, 0);
    game.playing.store(true, Ordering::SeqCst);
    // Quiescence takes the queen: pawn 100 against nothing.
    assert_eq!(game.quiescence(&b, i32::MIN, i32::MAX, 0), 100);
    assert_eq!(game.node_count, 2);
    // At depth 0 the search is the quiescence search, one node more for the root.
    game.node_count = 0;
    assert_eq!(game.alpha_beta(&b, 0, i32::MIN, i32::MAX, 0), Some((100, None)));
    assert_eq!(game.node_count, 3);
    let found = game.alpha_beta(&b, 1, i32::MIN, i32::MAX, 0).unwrap();
    assert_eq!(found, (100, Some(mv("e4d5"))));
    // The table answers a search that is no deeper.
    let nodes = game.node_count;
    assert_eq!(game.alpha_beta(&b, 1, -5, 5, 0), Some((100, Some(mv("e4d5")))));
    assert_eq!(game.node_count, nodes);
}

#[test]
fn a_plain_node_goes_by_the_readings_it_is_given() {
    let b = board("6k1/5ppp/8/8/8/8/8/R3K3 w - - 0 1");
    let raised = AtomicBool::new(true);
    let lowered = AtomicBool::new(false);
    let start = Instant::now();
    let mut nodes = 3u64;
    let mut cache: HashMap<u64, CacheEntry> = HashMap::new();
    // With the time up or the flag read as lowered the node is given up
    // and nothing changes.
    let late = minimax_node(
        &b, 1, i32::MIN, i32::MAX, 1001, true, &start, 1000, &mut nodes, &mut cache, &raised,
    );
    assert_eq!(late, Err(()));
    let stopped = minimax_node(
        &b, 1, i32::MIN, i32::MAX, 0, false, &start, 1000, &mut nodes, &mut cache, &raised,
    );
    assert_eq!(stopped, Err(()));
    assert_eq!(nodes, 3);
    assert!(cache.is_empty());
    // The very last millisecond still counts as in time.
    let leaf = minimax_node(
        &b, 0, i32::MIN, i32::MAX, 1000, true, &start, 1000, &mut nodes, &mut cache, &lowered,
    );
    assert_eq!(leaf, Ok(MoveScore { score: 200, mv: None }));
    assert_eq!(nodes, 4);
    // A finished game comes to its score whatever the flag does later.
    let mated = board("R5k1/5ppp/8/8/8/8/8/4K3 b - - 1 1");
    let over = minimax_node(
        &mated, 3, i32::MIN, i32::MAX, 0, true, &start, 1000, &mut nodes, &mut cache, &lowered,
    );
    assert_eq!(over, Ok(MoveScore { score: 100_200, mv: None }));
    // So does a node that the cache settles.
    cache.insert(
        b.hash(),
        CacheEntry { val: 77, depth: 4, bound: SearchBound::Exact, chess_move: Some(mv("a1a8")) },
    );
    let cached = minimax_node(
        &b, 2, i32::MIN, i32::MAX, 0, true, &start, 1000, &mut nodes, &mut cache, &lowered,
    );
    assert_eq!(cached, Ok(MoveScore { score: 77, mv: Some(mv("a1a8")) }));
    // Where moves are searched, each reads the flag anew.
    let deeper = minimax_node(
        &b, 5, i32::MIN, i32::MAX, 0, true, &start, 1000, &mut nodes, &mut cache, &lowered,
    );
    assert_eq!(deeper, Err(()));
    let found = minimax_node(
        &b, 5, i32::MIN, i32::MAX, 0, true, &start, 60_000, &mut nodes, &mut cache, &raised,
    );
    assert_eq!(found.unwrap().mv, Some(mv("a1a8")));
}

#[test]
fn a_game_node_goes_by_the_reading_it_is_given() {
    let b = board("4k3/8/8/3q4/4P3/8/8/4K3 w - - 0 1");
    let mut game = Game::new_from_board(b.clone(), 2, 1000);
    game.playing.store(true, Ordering::SeqCst);
    // Read as lowered, the node stops at once and changes nothing.
    assert_eq!(game.alpha_beta_node(&b, 1, i32::MIN, i32::MAX, 0, false), None);
    assert_eq!(game.node_count, 0);
    assert!(game.tt.is_empty());
    // Read as raised, a node at the horizon comes to its result whatever
    // the flag does later.
    game.playing.store(false, Ordering::SeqCst);
    assert_eq!(game.alpha_beta_node(&b, 0, i32::MIN, i32::MAX, 0, true), Some((100, None)));
    assert_eq!(game.node_count, 3);
    let stalemate = board("7k/5Q2/6K1/8/8/8/8/8 b - - 0 1");
    assert_eq!(game.alpha_beta_node(&stalemate, 4, i32::MIN, i32::MAX, 1, true), Some((0, None)));
    // Where moves are searched, each reads the flag anew.
    assert_eq!(game.alpha_beta_node(&b, 1, i32::MIN, i32::MAX, 0, true), None);
    game.playing.store(true, Ordering::SeqCst);
    assert_eq!(
        game.alpha_beta_node(&b, 1, i32::MIN, i32::MAX, 0, true),
        Some((100, Some(mv("e4d5"))))
    );
    // The table now answers the node, flag or no flag.
    game.playing.store(false, Ordering::SeqCst);
    assert_eq!(
        game.alpha_beta_node(&b, 1, i32::MIN, i32::MAX, 0, true),
        Some((100, Some(mv("e4d5"))))
    );
}

#[test]
fn the_drivers_go_on_while_time_depth_and_flag_allow() {
    assert!(goes_on(0, 1, 0, 1, true));
    assert!(goes_on(999, 1000, 63, 64, true));
    assert!(!goes_on(1000, 1000, 0, 64, true));
    assert!(!goes_on(0, 0, 0, 64, true));
    assert!(!goes_on(0, 1000, 64, 64, true));
    assert!(!goes_on(0, 1000, 0, 0, true));
    assert!(!goes_on(0, 1000, 0, 64, false));
    assert!(plays_on(0, 1, true));
    assert!(plays_on(254, 255, true));
    assert!(!plays_on(1, 1, true));
    assert!(!plays_on(0, 0, true));
    assert!(!plays_on(0, 5, false));
}

#[test]
fn a_game_without_depth_searches_nothing() {
    let mut game = Game::new(0, 0);
    let mut report = vec!["kept".to_string()];
    assert_eq!(game.go(&mut report), None);
    assert_eq!(report, vec!["kept".to_string()]);
    assert_eq!(game.node_count, 0);
}
