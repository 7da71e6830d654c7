use chessosity::perft::uci_perft;
use chessosity::text::{parse_number, push_decimal, push_move, push_signed, push_square, same_text};
use chessosity::types::{Move, Piece};
use chessosity::uci::format_move::format_move;
use chessosity::search::transposition_table::TranspositionTable;
use chessosity::uci::uci_command_go::{
    bestmove_line, do_uci_command_go, info_line, line_text, nodes_per_second, parse_go,
    read_clocks, score_text, uci_move_text, Clocks, GoLimits,
};
use chessosity::uci::uci_command_perft::{do_uci_command_perft, parse_perft_depth};
use chessosity::uci::uci_command_position::{
    do_plain_position, do_uci_command_position, PositionError,
};
use chessosity::uci::uci_command_testeval::do_uci_command_testeval;
use chessosity::uci::uci_loop::{read_command, UciCommand, UciData};
use cozy_chess::Board;

fn board(fen: &str) -> Board {
    Board::from_fen(fen, false).expect("a valid position")
}

fn mv(text: &str) -> Move {
    let m: cozy_chess::Move = text.parse().expect("a move");
    Move {
        from: m.from as u8,
        to: m.to as u8,
        promotion: m.promotion.map(|p| match p {
            cozy_chess::Piece::Pawn => Piece::Pawn,
            cozy_chess::Piece::Knight => Piece::Knight,
            cozy_chess::Piece::Bishop => Piece::Bishop,
            cozy_chess::Piece::Rook => Piece::Rook,
            cozy_chess::Piece::Queen => Piece::Queen,
            cozy_chess::Piece::King => Piece::King,
        }),
    }
}

fn words(line: &str) -> Vec<String> {
    line.split_whitespace().map(|word| word.to_string()).collect()
}

fn played(moves: &[&str]) -> (Board, Vec<u64>) {
    let mut board = Board::default();
    let mut history = vec![board.hash()];
    for text in moves {
        let m = cozy_chess::util::parse_uci_move(&board, text).expect("a move");
        board.play(m);
        history.push(board.hash());
    }
    (board, history)
}

#[test]
fn perft_of_the_start_position() {
    let start = Board::default();
    assert_eq!(uci_perft(&start, 0), 1);
    assert_eq!(uci_perft(&start, 1), 20);
    assert_eq!(uci_perft(&start, 2), 400);
    assert_eq!(uci_perft(&start, 3), 8902);
}

#[test]
fn perft_of_a_finished_game_is_zero() {
    let mated = board("rnb1kbnr/pppp1ppp/8/4p3/6Pq/5P2/PPPPP2P/RNBQKBNR w KQkq - 1 3");
    assert_eq!(uci_perft(&mated, 0), 1);
    assert_eq!(uci_perft(&mated, 1), 0);
    assert_eq!(uci_perft(&mated, 4), 0);
}

#[test]
fn perft_with_castling_and_promotion() {
    let b = board("r3k2r/p1ppqpb1/bn2pnp1/3PN3/1p2P3/2N2Q1p/PPPBBPPP/R3K2R w KQkq - 0 1");
    assert_eq!(uci_perft(&b, 1), 48);
    assert_eq!(uci_perft(&b, 2), 2039);
}

#[test]
fn numbers_are_written_in_decimal() {
    let mut text = String::from("n=");
    push_decimal(&mut text, 0);
    assert_eq!(text, "n=0");
    let mut text = String::new();
    push_decimal(&mut text, 1234567890);
    assert_eq!(text, "1234567890");
    let mut text = String::new();
    push_decimal(&mut text, u64::MAX);
    assert_eq!(text, "18446744073709551615");
    let mut text = String::new();
    push_signed(&mut text, -42);
    push_signed(&mut text, 7);
    assert_eq!(text, "-427");
    let mut text = String::new();
    push_signed(&mut text, i64::MIN);
    assert_eq!(text, "-9223372036854775808");
    let mut text = String::new();
    push_signed(&mut text, 0);
    assert_eq!(text, "0");
}

#[test]
fn numbers_are_read_from_digits_only() {
    assert_eq!(parse_number("0"), Some(0));
    assert_eq!(parse_number("123"), Some(123));
    assert_eq!(parse_number("007"), Some(7));
    assert_eq!(parse_number("18446744073709551615"), Some(u64::MAX));
    assert_eq!(parse_number("18446744073709551616"), None);
    assert_eq!(parse_number("99999999999999999999999"), None);
    assert_eq!(parse_number(""), None);
    assert_eq!(parse_number("12a"), None);
    assert_eq!(parse_number("-5"), None);
    assert_eq!(parse_number("+5"), None);
    assert_eq!(parse_number(" 5"), None);
}

#[test]
fn texts_are_compared_by_their_characters() {
    assert!(same_text("wtime", "wtime"));
    assert!(!same_text("wtime", "btime"));
    assert!(!same_text("wtime", "wtim"));
    assert!(same_text("", ""));
    assert!(!same_text("", "a"));
}

#[test]
fn squares_and_moves_in_coordinates() {
    let mut text = String::new();
    push_square(&mut text, 0);
    push_square(&mut text, 63);
    push_square(&mut text, 28);
    assert_eq!(text, "a1h8e4");
    let mut text = String::new();
    push_move(&mut text, mv("e2e4"));
    assert_eq!(text, "e2e4");
    let mut text = String::new();
    push_move(&mut text, mv("a7a8q"));
    push_move(&mut text, mv("h2h1n"));
    assert_eq!(text, "a7a8qh2h1n");
}

#[test]
fn castling_is_named_by_the_king_move() {
    let b = board("r3k2r/8/8/8/8/8/8/R3K2R w KQkq - 0 1");
    assert_eq!(format_move(&mv("e1h1"), &b), "e1g1");
    assert_eq!(format_move(&mv("e1a1"), &b), "e1c1");
    assert_eq!(format_move(&mv("e8h8"), &b), "e8g8");
    assert_eq!(format_move(&mv("e8a8"), &b), "e8c8");
    assert_eq!(format_move(&mv("e1e2"), &b), "e1e2");
    assert_eq!(format_move(&mv("a1a8"), &b), "a1a8");
    let start = Board::default();
    assert_eq!(format_move(&mv("e2e4"), &start), "e2e4");
    let promo = board("4k3/1P6/8/8/8/8/8/4K3 w - - 0 1");
    assert_eq!(format_move(&mv("b7b8q"), &promo), "b7b8q");
    assert_eq!(format_move(&mv("b7b8n"), &promo), "b7b8n");
}

#[test]
fn go_without_arguments_uses_the_default_clock() {
    assert_eq!(parse_go(&words("go"), true), GoLimits { max_depth: 64, time: 19_000 });
    assert_eq!(parse_go(&words("go"), false), GoLimits { max_depth: 64, time: 19_000 });
    assert_eq!(parse_go(&vec![], true), GoLimits { max_depth: 64, time: 19_000 });
}

#[test]
fn go_infinite_and_go_depth() {
    assert_eq!(parse_go(&words("go infinite"), true), GoLimits { max_depth: 64, time: 0 });
    assert_eq!(parse_go(&words("go depth 5"), true), GoLimits { max_depth: 5, time: 0 });
    assert_eq!(parse_go(&words("go depth 255"), false), GoLimits { max_depth: 255, time: 0 });
    assert_eq!(parse_go(&words("go depth 256"), true), GoLimits { max_depth: 64, time: 0 });
    assert_eq!(parse_go(&words("go depth x"), true), GoLimits { max_depth: 64, time: 0 });
    assert_eq!(parse_go(&words("go depth"), true), GoLimits { max_depth: 64, time: 0 });
}

#[test]
fn go_with_clocks() {
    let line = words("go wtime 60000 btime 30000 winc 1000 binc 500");
    assert_eq!(parse_go(&line, true), GoLimits { max_depth: 64, time: 6_500 });
    assert_eq!(parse_go(&line, false), GoLimits { max_depth: 64, time: 3_250 });
    // A clock without a number keeps the default; the last number wins.
    assert_eq!(parse_go(&words("go wtime"), true), GoLimits { max_depth: 64, time: 19_000 });
    assert_eq!(parse_go(&words("go wtime abc"), true), GoLimits { max_depth: 64, time: 19_000 });
    assert_eq!(
        parse_go(&words("go wtime 100 wtime 200 winc 0"), true),
        GoLimits { max_depth: 64, time: 20 }
    );
    assert_eq!(
        parse_go(&words("go wtime 180000 btime 180000"), true),
        GoLimits { max_depth: 64, time: 19_000 }
    );
}

#[test]
fn scores_as_the_protocol_writes_them() {
    assert_eq!(score_text(35), "cp 35");
    assert_eq!(score_text(-120), "cp -120");
    assert_eq!(score_text(0), "cp 0");
    assert_eq!(score_text(899_999), "cp 899999");
    assert_eq!(score_text(1_000_000), "mate 0");
    assert_eq!(score_text(999_000), "mate 0");
    assert_eq!(score_text(998_000), "mate 1");
    assert_eq!(score_text(997_000), "mate 1");
    assert_eq!(score_text(996_000), "mate 2");
    assert_eq!(score_text(-999_000), "mate 0");
    assert_eq!(score_text(-998_000), "mate -1");
    assert_eq!(score_text(-996_000), "mate -2");
    assert_eq!(score_text(-995_000), "mate -2");
    assert_eq!(score_text(900_000), "mate 50");
    assert_eq!(score_text(-900_000), "mate -50");
}

#[test]
fn speed_in_nodes_per_second() {
    assert_eq!(nodes_per_second(5000, 10), 500_000);
    assert_eq!(nodes_per_second(5, 10), 0);
    assert_eq!(nodes_per_second(12345, 0), 0);
    assert_eq!(nodes_per_second(u64::MAX, 1), u64::MAX);
}

#[test]
fn report_line_for_a_depth() {
    assert_eq!(
        info_line(3, 35, 1000, 10, "e2e4", "e2e4 e7e5"),
        "info depth 3 score cp 35 nodes 1000 nps 100000 time 10 bestmove e2e4 pv e2e4 e7e5"
    );
    assert_eq!(
        info_line(1, 999_000, 21, 0, "a1a8", "a1a8"),
        "info depth 1 score mate 0 nodes 21 nps 0 time 0 bestmove a1a8 pv a1a8"
    );
}

#[test]
fn lines_of_moves_are_named_as_they_are_played() {
    let start = Board::default();
    assert_eq!(line_text(&start, &vec![mv("e2e4"), mv("e7e5"), mv("g1f3")]), "e2e4 e7e5 g1f3");
    assert_eq!(line_text(&start, &vec![]), "");
    // The line ends before a move that cannot be played.
    assert_eq!(line_text(&start, &vec![mv("e2e4"), mv("e2e4"), mv("g1f3")]), "e2e4");
    assert_eq!(line_text(&start, &vec![mv("e7e5")]), "");
    let castle = board("r3k2r/8/8/8/8/8/8/R3K2R w KQkq - 0 1");
    assert_eq!(line_text(&castle, &vec![mv("e1h1"), mv("e8a8")]), "e1g1 e8c8");
}

#[test]
fn session_starts_at_the_start_position() {
    let data = UciData::new();
    assert_eq!(data.board, Board::default());
    assert_eq!(data.current_move_history, vec![Board::default().hash()]);
    assert!(!data.is_playing.load(std::sync::atomic::Ordering::SeqCst));
}

#[test]
fn position_startpos_with_moves() {
    let mut data = UciData::new();
    let done = do_uci_command_position(&mut data, &words("position startpos moves e2e4 e7e5 g1f3"));
    assert_eq!(done, Ok(()));
    let (expected, history) = played(&["e2e4", "e7e5", "g1f3"]);
    assert_eq!(data.board, expected);
    assert_eq!(data.current_move_history, history);
    // Setting up anew forgets the moves.
    assert_eq!(do_uci_command_position(&mut data, &words("position startpos")), Ok(()));
    assert_eq!(data.board, Board::default());
    assert_eq!(data.current_move_history, vec![Board::default().hash()]);
}

#[test]
fn position_fen_with_moves() {
    let mut data = UciData::new();
    let line = words("position fen r3k2r/8/8/8/8/8/8/R3K2R w KQkq - 0 1 moves e1g1 e8c8");
    assert_eq!(do_uci_command_position(&mut data, &line), Ok(()));
    let expected = board("2kr3r/8/8/8/8/8/8/R4RK1 w - - 2 2");
    assert_eq!(data.board, expected);
    assert_eq!(data.current_move_history.len(), 3);
    assert_eq!(data.current_move_history[2], expected.hash());
    assert_eq!(
        data.current_move_history[0],
        board("r3k2r/8/8/8/8/8/8/R3K2R w KQkq - 0 1").hash()
    );
    let plain = words("position fen 4k3/8/8/8/8/8/4P3/4K3 b - - 3 9");
    assert_eq!(do_uci_command_position(&mut data, &plain), Ok(()));
    assert_eq!(data.board, board("4k3/8/8/8/8/8/4P3/4K3 b - - 3 9"));
    assert_eq!(data.current_move_history.len(), 1);
}

#[test]
fn position_with_a_bad_fen_changes_nothing() {
    let mut data = UciData::new();
    do_uci_command_position(&mut data, &words("position startpos moves e2e4")).unwrap();
    let before = data.board.clone();
    let history = data.current_move_history.clone();
    let bad = words("position fen 9/8/8/8/8/8/8/8 w - - 0 1");
    assert_eq!(do_uci_command_position(&mut data, &bad), Err(PositionError::InvalidFen));
    assert_eq!(data.board, before);
    assert_eq!(data.current_move_history, history);
    let short = words("position fen 4k3/8/8/8/8/8/4P3/4K3 b - -");
    assert_eq!(do_uci_command_position(&mut data, &short), Err(PositionError::InvalidFen));
    assert_eq!(data.board, before);
}

#[test]
fn position_with_an_illegal_move_stops_there() {
    let mut data = UciData::new();
    let line = words("position startpos moves e2e4 e7e5 e1e3 g1f3");
    assert_eq!(do_uci_command_position(&mut data, &line), Err(PositionError::IllegalMove));
    let (expected, history) = played(&["e2e4", "e7e5"]);
    assert_eq!(data.board, expected);
    assert_eq!(data.current_move_history, history);
    let nonsense = words("position startpos moves zz");
    assert_eq!(do_uci_command_position(&mut data, &nonsense), Err(PositionError::IllegalMove));
    assert_eq!(data.board, Board::default());
}

#[test]
fn other_position_commands_change_nothing() {
    let mut data = UciData::new();
    do_uci_command_position(&mut data, &words("position startpos moves d2d4")).unwrap();
    let before = data.board.clone();
    assert_eq!(do_uci_command_position(&mut data, &words("position")), Ok(()));
    assert_eq!(do_uci_command_position(&mut data, &words("position moves e7e5")), Ok(()));
    assert_eq!(do_uci_command_position(&mut data, &words("position current")), Ok(()));
    assert_eq!(data.board, before);
    assert_eq!(data.current_move_history.len(), 2);
}

#[test]
fn commands_are_told_by_their_first_word() {
    assert_eq!(read_command(&words("uci")), UciCommand::Uci);
    assert_eq!(read_command(&words("isready")), UciCommand::IsReady);
    assert_eq!(read_command(&words("perft 3")), UciCommand::Perft);
    assert_eq!(read_command(&words("position startpos")), UciCommand::Position);
    assert_eq!(read_command(&words("go depth 2")), UciCommand::Go);
    assert_eq!(read_command(&words("stop")), UciCommand::Stop);
    assert_eq!(read_command(&words("testeval")), UciCommand::TestEval);
    assert_eq!(read_command(&words("ucinewgame")), UciCommand::NewGame);
    assert_eq!(read_command(&words("fen")), UciCommand::Fen);
    assert_eq!(read_command(&words("quit")), UciCommand::Quit);
    assert_eq!(read_command(&words("")), UciCommand::Nothing);
    assert_eq!(read_command(&words("hello world")), UciCommand::Unknown);
    assert_eq!(read_command(&words("UCI")), UciCommand::Unknown);
}

#[test]
fn perft_command_counts_and_reports() {
    assert_eq!(parse_perft_depth(&words("perft 3")), 3);
    assert_eq!(parse_perft_depth(&words("perft")), 5);
    assert_eq!(parse_perft_depth(&words("perft x")), 5);
    assert_eq!(parse_perft_depth(&words("perft 300")), 5);
    let data = UciData::new();
    let (nodes, line) = do_uci_command_perft(&data, &words("perft 2"));
    assert_eq!(nodes, 400);
    assert!(line.starts_with("nodes: 400, time: "), "{}", line);
    assert!(line.contains("ms, nps: "), "{}", line);
}

#[test]
fn testeval_command_reports_score_and_position() {
    let mut data = UciData::new();
    assert_eq!(
        do_uci_command_testeval(&data),
        "info score cp 0 position fen rnbqkbnr/pppppppp/8/8/8/8/PPPPPPPP/RNBQKBNR w KQkq - 0 1"
    );
    do_uci_command_position(&mut data, &words("position fen 4k3/4p3/8/8/8/8/8/4K3 w - - 0 1"))
        .unwrap();
    assert_eq!(
        do_uci_command_testeval(&data),
        "info score cp -162 position fen 4k3/4p3/8/8/8/8/8/4K3 w - - 0 1"
    );
}

#[test]
fn go_command_searches_and_reports() {
    let mut data = UciData::new();
    do_uci_command_position(
        &mut data,
        &words("position fen 6k1/5ppp/8/8/8/8/8/R3K3 w - - 0 1"),
    )
    .unwrap();
    let mut table = TranspositionTable::new(1 << 12);
    let mut report = vec!["earlier".to_string()];
    assert!(!data.is_playing.load(std::sync::atomic::Ordering::SeqCst));
    let search = do_uci_command_go(&mut data, &words("go depth 2"), &mut table, &mut report);
    // The flag is raised at the start of the search.
    assert!(data.is_playing.load(std::sync::atomic::Ordering::SeqCst));
    assert_eq!(search.best_move, Some(mv("a1a8")));
    assert_eq!(search.best_score, Some(999_000));
    assert_eq!(search.best_pv, vec![mv("a1a8")]);
    assert_eq!(search.completed, 2);
    assert_eq!(search.max_depth, 2);
    assert_eq!(search.time, 0);
    assert_eq!(report.len(), 4);
    assert_eq!(report[0], "earlier");
    assert!(report[1].starts_with("info depth 1 score mate 0 nodes "), "{}", report[1]);
    assert!(report[1].ends_with(" bestmove a1a8 pv a1a8"), "{}", report[1]);
    assert!(report[2].starts_with("info depth 2 score mate 0 nodes "), "{}", report[2]);
    assert_eq!(report[3], "bestmove a1a8");
}

#[test]
fn go_command_without_depth_reports_nothing() {
    let mut data = UciData::new();
    let mut table = TranspositionTable::new(1 << 10);
    let mut report = vec!["earlier".to_string()];
    let search = do_uci_command_go(&mut data, &words("go depth 0"), &mut table, &mut report);
    assert_eq!(search.best_move, None);
    assert_eq!(search.completed, 0);
    assert_eq!(report, vec!["earlier".to_string()]);
    assert!(table.get(data.board.hash()).is_none());
}

#[test]
fn go_command_stops_when_the_time_runs_short() {
    let mut data = UciData::new();
    let mut table = TranspositionTable::new(1 << 14);
    let mut report = Vec::new();
    let search =
        do_uci_command_go(&mut data, &words("go wtime 300 winc 0"), &mut table, &mut report);
    assert_eq!(search.time, 30);
    assert!(search.completed >= 1);
    assert!(search.completed < 64);
    assert!(search.best_move.is_some());
    assert_eq!(report.len(), search.completed as usize + 1);
    assert!(report[0].starts_with("info depth 1 score cp "), "{}", report[0]);
    assert!(report.last().unwrap().starts_with("bestmove "));
}

#[test]
fn go_command_names_castling_as_the_protocol_does() {
    let castle = board("r3k2r/8/8/8/8/8/8/R3K2R w KQkq - 0 1");
    assert_eq!(bestmove_line(&castle, mv("e1h1")), "bestmove e1g1");
    assert_eq!(bestmove_line(&castle, mv("a1a8")), "bestmove a1a8");
}

#[test]
fn moves_are_named_by_the_castling_rights() {
    // A king that takes a rook in the corner is no castling move.
    let takes = board("4k3/8/8/8/8/8/1K6/r7 w - - 0 1");
    assert_eq!(uci_move_text(&takes, mv("b2a1")), "b2a1");
    assert_eq!(bestmove_line(&takes, mv("b2a1")), "bestmove b2a1");
    assert_eq!(line_text(&takes, &vec![mv("b2a1")]), "b2a1");
    // A king that moves onto a rook it may castle with castles.
    let castle = board("r3k2r/8/8/8/8/8/8/R3K2R w KQkq - 0 1");
    assert_eq!(uci_move_text(&castle, mv("e1h1")), "e1g1");
    assert_eq!(uci_move_text(&castle, mv("e1a1")), "e1c1");
    assert_eq!(uci_move_text(&castle, mv("e1e2")), "e1e2");
    // Without the right the move is written as it is.
    let no_right = board("r3k2r/8/8/8/8/8/8/R3K2R w kq - 0 1");
    assert_eq!(uci_move_text(&no_right, mv("e1h1")), "e1h1");
    let black = board("r3k2r/8/8/8/8/8/8/R3K2R b KQkq - 0 1");
    assert_eq!(uci_move_text(&black, mv("e8a8")), "e8c8");
    assert_eq!(uci_move_text(&black, mv("e8h8")), "e8g8");
    assert_eq!(uci_move_text(&black, mv("a7a8q")), "a7a8q");
    // A move off the board is written in plain coordinates.
    let off = Move { from: 64, to: 3, promotion: None };
    assert_eq!(uci_move_text(&castle, off), "a9d1");
}

#[test]
fn clocks_are_read_from_a_go_command() {
    assert_eq!(
        read_clocks(&words("go")),
        Clocks { white_time: 180_000, black_time: 180_000, white_inc: 2_000, black_inc: 2_000 }
    );
    assert_eq!(
        read_clocks(&words("go wtime 60000 btime 30000 winc 1000 binc 500")),
        Clocks { white_time: 60_000, black_time: 30_000, white_inc: 1_000, black_inc: 500 }
    );
    assert_eq!(
        read_clocks(&words("go binc 7 wtime x wtime 12")),
        Clocks { white_time: 12, black_time: 180_000, white_inc: 2_000, black_inc: 7 }
    );
}

#[test]
fn plain_position_command() {
    let mut data = UciData::new();
    assert_eq!(do_plain_position(&mut data, &words("position startpos moves e2e4 e7e5")), Ok(()));
    let (expected, history) = played(&["e2e4", "e7e5"]);
    assert_eq!(data.board, expected);
    assert_eq!(data.current_move_history, history);
    // Moves alone are played on the board as it stands.
    assert_eq!(do_plain_position(&mut data, &words("position moves g1f3 b8c6")), Ok(()));
    let (expected, history) = played(&["e2e4", "e7e5", "g1f3", "b8c6"]);
    assert_eq!(data.board, expected);
    assert_eq!(data.current_move_history, history);
    assert_eq!(
        do_plain_position(&mut data, &words("position moves a2a5")),
        Err(PositionError::IllegalMove)
    );
    assert_eq!(data.board, expected);
    // A position is described by all the words behind `fen`.
    let line = words("position fen 4k3/8/8/8/8/8/4P3/4K3 b - - 3 9");
    assert_eq!(do_plain_position(&mut data, &line), Ok(()));
    assert_eq!(data.board, board("4k3/8/8/8/8/8/4P3/4K3 b - - 3 9"));
    assert_eq!(data.current_move_history, vec![data.board.hash()]);
    let before = data.board.clone();
    let trailing = words("position fen 4k3/8/8/8/8/8/4P3/4K3 b - - 3 9 moves e8e7");
    assert_eq!(do_plain_position(&mut data, &trailing), Err(PositionError::InvalidFen));
    assert_eq!(do_plain_position(&mut data, &words("position fen")), Err(PositionError::InvalidFen));
    assert_eq!(data.board, before);
    assert_eq!(do_plain_position(&mut data, &words("position")), Ok(()));
    assert_eq!(do_plain_position(&mut data, &words("position here")), Ok(()));
    assert_eq!(data.board, before);
}

fn legal_names(board: &Board) -> Vec<String> {
    let mut names = Vec::new();
    board.generate_moves(|moves| {
        for m in moves {
            names.push(format!("{}", m));
        }
        false
    });
    names
}

#[test]
fn go_names_a_legal_move_after_every_depth() {
    let fen = "r1bqkbnr/pppp1ppp/2n5/4p3/4P3/5N2/PPPP1PPP/RNBQKB1R w KQkq - 2 3";
    for depth in 1..=3u8 {
        let mut data = UciData::new();
        do_uci_command_position(&mut data, &words(&format!("position fen {}", fen))).unwrap();
        let mut table = TranspositionTable::new(1 << 12);
        let mut report = Vec::new();
        let command = format!("go depth {}", depth);
        let search = do_uci_command_go(&mut data, &words(&command), &mut table, &mut report);
        assert_eq!(search.completed, depth);
        let best = search.best_move.expect("a move");
        let name = uci_move_text(&data.board, best);
        assert!(legal_names(&data.board).contains(&name), "{}", name);
        assert_eq!(search.best_pv[0], best);
        assert_eq!(report.len(), depth as usize + 1);
        assert_eq!(report[report.len() - 1], format!("bestmove {}", name));
        for line in &report[..report.len() - 1] {
            assert!(line.starts_with("info depth "), "{}", line);
        }
    }
}

#[test]
fn a_search_stores_nothing_deeper_than_it_searched() {
    let fen = "r1bqkbnr/pppp1ppp/2n5/4p3/4P3/5N2/PPPP1PPP/RNBQKB1R w KQkq - 2 3";
    let mut data = UciData::new();
    do_uci_command_position(&mut data, &words(&format!("position fen {}", fen))).unwrap();
    let mut table = TranspositionTable::new(1 << 12);
    let mut report = Vec::new();
    do_uci_command_go(&mut data, &words("go depth 3"), &mut table, &mut report);
    let root = table.get(data.board.hash()).expect("the root is stored");
    assert_eq!(root.depth, 3);
    let mut seen = 0;
    data.board.generate_moves(|moves| {
        for m in moves {
            let mut next = data.board.clone();
            next.play(m);
            if let Some(entry) = table.get(next.hash()) {
                assert!(entry.depth <= 2, "{}", entry.depth);
                seen += 1;
            }
        }
        false
    });
    assert!(seen > 0);
}

#[test]
fn a_table_that_knows_the_position_answers_for_it() {
    // An entry for the root that was searched deep enough settles the
    // search: the move it holds is handed back as it is.
    let mut data = UciData::new();
    let mut table = TranspositionTable::new(1 << 10);
    let stored = mv("e2e4");
    table.insert(
        data.board.hash(),
        chessosity::search::transposition_table::TranspositionTableEntry {
            depth: 5,
            score: 17,
            best_move: Some(stored),
            entry_type: chessosity::search::transposition_table::TranspositionTableEntryType::Exact,
            pv: vec![stored],
            hash: data.board.hash(),
        },
    );
    let mut report = Vec::new();
    let search = do_uci_command_go(&mut data, &words("go depth 2"), &mut table, &mut report);
    assert_eq!(search.best_move, Some(stored));
    assert_eq!(search.best_score, Some(17));
    assert_eq!(report[report.len() - 1], "bestmove e2e4");
}
