use chessosity::eval::eval::{eval, eval_endgame, eval_opening};
use chessosity::eval::eval_count_material::{
    count_pieces, eval_count_material_end, eval_count_material_opening, get_piece_value_end,
    get_piece_value_opening,
};
use chessosity::eval::eval_is_mate::{eval_is_mate, is_mate_score};
use chessosity::eval::eval_mop_up::{center_manhattan_distance, eval_mop_up, manhattan_distance};
use chessosity::eval::eval_pawn_structure::eval_pawn_structure;
use chessosity::eval::eval_pst::{eval_pst_end, eval_pst_opening};
use chessosity::eval::game_phase::get_game_phase;
use chessosity::eval_count_material::eval_count_material;
use chessosity::time_manager::{allot_time, manage_time};
use chessosity::types::{Color, Piece};
use cozy_chess::Board;

fn board(fen: &str) -> Board {
    Board::from_fen(fen, false).expect("a valid position")
}

#[test]
fn center_distance_of_known_squares() {
    assert_eq!(center_manhattan_distance(27), 0); // d4
    assert_eq!(center_manhattan_distance(0), 6); // a1
    assert_eq!(center_manhattan_distance(63), 8); // h8
    assert_eq!(center_manhattan_distance(7), 7); // h1
    assert_eq!(center_manhattan_distance(36), 2); // e5
}

#[test]
fn center_distance_of_numbers_off_the_board() {
    assert_eq!(center_manhattan_distance(-1), 7);
    assert_eq!(center_manhattan_distance(-9), 8);
    assert_eq!(center_manhattan_distance(64), 8);
}

#[test]
fn distance_between_squares() {
    assert_eq!(manhattan_distance(0, 63), 14);
    assert_eq!(manhattan_distance(63, 0), 14);
    assert_eq!(manhattan_distance(12, 12), 0);
    assert_eq!(manhattan_distance(4, 60), 7);
    assert_eq!(manhattan_distance(0, 7), 7);
    assert_eq!(manhattan_distance(27, 36), 2);
}

#[test]
fn piece_values() {
    assert_eq!(get_piece_value_opening(Piece::Pawn), 80);
    assert_eq!(get_piece_value_opening(Piece::Knight), 320);
    assert_eq!(get_piece_value_opening(Piece::Bishop), 330);
    assert_eq!(get_piece_value_opening(Piece::Rook), 470);
    assert_eq!(get_piece_value_opening(Piece::Queen), 900);
    assert_eq!(get_piece_value_opening(Piece::King), 0);
    assert_eq!(get_piece_value_end(Piece::Pawn), 100);
    assert_eq!(get_piece_value_end(Piece::Knight), 320);
    assert_eq!(get_piece_value_end(Piece::Bishop), 330);
    assert_eq!(get_piece_value_end(Piece::Rook), 530);
    assert_eq!(get_piece_value_end(Piece::Queen), 900);
    assert_eq!(get_piece_value_end(Piece::King), 0);
}

#[test]
fn counts_of_the_start_position() {
    let start = Board::default();
    assert_eq!(count_pieces(&start, Color::White, Piece::Pawn), 8);
    assert_eq!(count_pieces(&start, Color::Black, Piece::Pawn), 8);
    assert_eq!(count_pieces(&start, Color::White, Piece::Knight), 2);
    assert_eq!(count_pieces(&start, Color::Black, Piece::Queen), 1);
    assert_eq!(count_pieces(&start, Color::White, Piece::King), 1);
}

#[test]
fn start_position_is_balanced() {
    let start = Board::default();
    assert_eq!(eval_count_material_opening(&start), 0);
    assert_eq!(eval_count_material_end(&start), 0);
    assert_eq!(eval_count_material(&start), 0);
    assert_eq!(eval_pst_opening(&start), 0);
    assert_eq!(eval_pst_end(&start), 0);
    assert_eq!(eval_pawn_structure(&start), 0);
    assert_eq!(get_game_phase(&start), 0);
    assert_eq!(eval(&start, 0), 0);
    assert_eq!(eval(&start, 7), 0);
}

#[test]
fn material_with_a_queen_missing() {
    let b = board("rnb1kbnr/pppppppp/8/8/8/8/PPPPPPPP/RNBQKBNR w KQkq - 0 1");
    assert_eq!(eval_count_material_opening(&b), 900);
    assert_eq!(eval_count_material_end(&b), 900);
    assert_eq!(eval_count_material(&b), 900);
    assert_eq!(get_game_phase(&b), 43);
}

#[test]
fn material_counts_the_bishop_pair() {
    // White: king and two bishops. Black: king and one bishop.
    let b = board("4k3/8/8/8/8/8/5b2/2B1KB2 w - - 0 1");
    assert_eq!(eval_count_material_opening(&b), 330 + 50);
    assert_eq!(eval_count_material_end(&b), 330 + 100);
    assert_eq!(eval_count_material(&b), 300);
    let mirrored = board("2b1kb2/5B2/8/8/8/8/8/4K3 b - - 0 1");
    assert_eq!(eval_count_material_opening(&mirrored), -380);
    assert_eq!(eval_count_material_end(&mirrored), -430);
}

#[test]
fn game_phase_of_bare_kings_is_the_endgame() {
    let b = board("4k3/8/8/8/8/8/8/4K3 w - - 0 1");
    assert_eq!(get_game_phase(&b), 256);
}

#[test]
fn piece_square_tables_by_hand() {
    // White king on e1 and pawn on e2; black king on e8.
    let b = board("4k3/8/8/8/8/8/4P3/4K3 w - - 0 1");
    // pawn e2 (square 12): 50; kings: -50 - (-50) in the opening table.
    assert_eq!(eval_pst_opening(&b), 50);
    // endgame king table: e1 is -20, e8 seen from Black's side is e1: -20.
    assert_eq!(eval_pst_end(&b), 50);
    let black = board("4k3/4p3/8/8/8/8/8/4K3 w - - 0 1");
    // black pawn e7 (square 52) seen from Black's side is e2 (square 12): 50.
    assert_eq!(eval_pst_opening(&black), -50);
}

#[test]
fn pawn_structure_by_hand() {
    // A lone white pawn on e2: passed (175 + 1 * 25) and isolated (-50).
    let lone = board("4k3/8/8/8/8/8/4P3/4K3 w - - 0 1");
    assert_eq!(eval_pawn_structure(&lone), 150);
    // A lone black pawn on e7: the same for Black.
    let lone_black = board("4k3/4p3/8/8/8/8/8/4K3 w - - 0 1");
    assert_eq!(eval_pawn_structure(&lone_black), -150);
    // Doubled white pawns on e2 and e3: each stacked (-25) and isolated (-50);
    // both passed: 175 + 25 and 175 + 50.
    let doubled = board("4k3/8/8/8/8/4P3/4P3/4K3 w - - 0 1");
    assert_eq!(eval_pawn_structure(&doubled), (200 - 75) + (225 - 75));
    // White e4 against black d5: neither is passed, both are isolated.
    let facing = board("4k3/8/8/3p4/4P3/8/8/4K3 w - - 0 1");
    assert_eq!(eval_pawn_structure(&facing), 0);
    // White e4 and d4 side by side: passed, not isolated.
    let pair = board("4k3/8/8/8/3PP3/8/8/4K3 w - - 0 1");
    assert_eq!(eval_pawn_structure(&pair), 2 * (175 + 3 * 25));
}

#[test]
fn opening_and_endgame_scores_by_hand() {
    let lone = board("4k3/8/8/8/8/8/4P3/4K3 w - - 0 1");
    // material 80, tables 50 / 2, structure 150 / 4.
    assert_eq!(eval_opening(&lone, 0), 80 + 25 + 37);
    assert_eq!(eval_endgame(&lone, 0), 100 + 25 + 37);
    // bare kings and pawns: the phase is 256, so the endgame score stands.
    assert_eq!(eval(&lone, 0), 162);
    let lone_black = board("4k3/4p3/8/8/8/8/8/4K3 w - - 0 1");
    assert_eq!(eval(&lone_black, 0), -162);
}

#[test]
fn mate_scores_fall_with_distance() {
    // Fool's mate: White is mated.
    let mated = board("rnb1kbnr/pppp1ppp/8/4p3/6Pq/5P2/PPPPP2P/RNBQKBNR w KQkq - 1 3");
    assert_eq!(eval_is_mate(&mated, 0), -1_000_000);
    assert_eq!(eval_is_mate(&mated, 2), -998_000);
    assert_eq!(eval(&mated, 2), -998_000);
    assert_eq!(eval(&mated, 100), -900_000);
    assert!(eval(&mated, 1).abs() > eval(&mated, 3).abs());
    // Back-rank mate: Black is mated.
    let black_mated = board("R5k1/5ppp/8/8/8/8/8/4K3 b - - 1 1");
    assert_eq!(eval_is_mate(&black_mated, 1), 999_000);
    assert_eq!(eval(&black_mated, 1), 999_000);
    assert_eq!(eval_is_mate(&Board::default(), 1), 0);
}

#[test]
fn mate_threshold() {
    assert!(is_mate_score(900_000));
    assert!(is_mate_score(-900_000));
    assert!(is_mate_score(999_000));
    assert!(!is_mate_score(899_999));
    assert!(!is_mate_score(-899_999));
    assert!(!is_mate_score(0));
    assert!(is_mate_score(i32::MIN));
    assert!(is_mate_score(i32::MAX));
}

#[test]
fn stalemate_scores_zero() {
    let stalemate = board("7k/5Q2/6K1/8/8/8/8/8 b - - 0 1");
    assert_eq!(eval(&stalemate, 3), 0);
    assert_eq!(eval_is_mate(&stalemate, 3), 0);
    // The material alone would say otherwise.
    assert_eq!(eval_count_material_opening(&stalemate), 900);
}

#[test]
fn fifty_move_draw_scores_zero() {
    let drawn = board("4k3/8/8/8/8/8/4P3/4K3 w - - 100 80");
    assert_eq!(eval(&drawn, 0), 0);
}

#[test]
fn mop_up_by_hand() {
    // White to move: enemy king a8 (56), own king c6 (42).
    let b = board("k7/8/2K5/8/8/8/8/7Q w - - 0 1");
    // centre distance of a8: 4 + 3 = 7; king distance: 2 + 2 = 4.
    assert_eq!(eval_mop_up(&b, 0), (7 + 14 - 4) * 10);
    assert_eq!(eval_mop_up(&b, 5), (7 + 14 - 4 - 5) * 10);
}

#[test]
fn time_budget_exact_values() {
    assert_eq!(allot_time(9000, 0, 10), 11454);
    assert_eq!(allot_time(9000, -900, 10), 22500);
    assert_eq!(allot_time(9000, -5000, 10), 22500);
    assert_eq!(allot_time(9000, 200, 10), 9000);
    assert_eq!(allot_time(9000, 300, 10), 9000);
    assert_eq!(allot_time(9000, 0, 1), 4090);
    assert_eq!(allot_time(9000, 300, 0), 2250);
    assert_eq!(allot_time(9000, 300, 7), 9000);
    assert_eq!(allot_time(0, -900, 10), 0);
    assert_eq!(allot_time(u64::MAX, -900, 10), u64::MAX);
}

#[test]
fn time_budget_is_monotone() {
    let worst = allot_time(9000, -900, 10);
    let even = allot_time(9000, 0, 10);
    let ahead = allot_time(9000, 300, 10);
    assert!(worst >= even);
    assert!(even >= ahead);
    assert!(allot_time(9000, 0, 1) < allot_time(9000, 0, 10));
    assert!(allot_time(1, 300, 1) < allot_time(1, 300, 10));
}

#[test]
fn time_budget_for_a_board() {
    let start = Board::default();
    // base 180000 / 20 = 9000, level material, move 1.
    assert_eq!(manage_time(&start, 180_000, 180_000, 0, 0), 4090);
    assert_eq!(manage_time(&start, 180_000, 20, 2000, 0), 4545);
    // Black to move, a queen down, move 30: base 100 / 20 + 50 / 2 = 30.
    let behind = board("rnb1kbnr/pppppppp/8/8/8/8/PPPPPPPP/RNBQKBNR b KQkq - 0 30");
    assert_eq!(manage_time(&behind, 180_000, 100, 2000, 50), 75);
    // White to move in the same position is a queen up.
    let ahead = board("rnb1kbnr/pppppppp/8/8/8/8/PPPPPPPP/RNBQKBNR w KQkq - 0 30");
    assert_eq!(manage_time(&ahead, 100, 180_000, 50, 2000), 30);
}

/// The position seen from the other side: the ranks mirrored, the colours
/// swapped, and the other side to move.
fn mirrored(placement: &str, side: char) -> Board {
    let ranks: Vec<String> = placement
        .split('/')
        .rev()
        .map(|rank| {
            rank.chars()
                .map(|c| {
                    if c.is_ascii_uppercase() {
                        c.to_ascii_lowercase()
                    } else {
                        c.to_ascii_uppercase()
                    }
                })
                .collect()
        })
        .collect();
    let other = if side == 'w' { 'b' } else { 'w' };
    board(&format!("{} {} - - 0 1", ranks.join("/"), other))
}

#[test]
fn the_evaluator_sees_both_sides_alike() {
    for (placement, side) in [
        ("4k3/8/8/8/8/8/4P3/4K3", 'w'),
        ("rnbqkbnr/pppp1ppp/8/4p3/4P3/5N2/PPPP1PPP/RNBQKB1R", 'b'),
        ("r3k2r/p1ppqpb1/bn2pnp1/3PN3/1p2P3/2N2Q1p/PPPBBPPP/R3K2R", 'w'),
        ("8/2p5/3p4/KP5r/1R3p1k/8/4P1P1/8", 'w'),
        ("4k3/8/8/3q4/4P3/8/8/4K3", 'w'),
        ("4k3/8/8/Q7/8/8/8/4K3", 'w'),
        ("4k3/8/8/7Q/8/8/8/4K3", 'b'),
        ("4k3/8/1q6/8/8/8/2Q5/4K3", 'w'),
    ] {
        let here = board(&format!("{} {} - - 0 1", placement, side));
        let there = mirrored(placement, side);
        assert_eq!(eval(&there, 0), -eval(&here, 0), "{}", placement);
        assert_eq!(eval(&there, 3), -eval(&here, 3), "{}", placement);
        assert_eq!(eval_opening(&there, 0), -eval_opening(&here, 0), "{}", placement);
        assert_eq!(eval_endgame(&there, 0), -eval_endgame(&here, 0), "{}", placement);
        assert_eq!(eval_pawn_structure(&there), -eval_pawn_structure(&here), "{}", placement);
        assert_eq!(eval_pst_opening(&there), -eval_pst_opening(&here), "{}", placement);
        assert_eq!(eval_pst_end(&there), -eval_pst_end(&here), "{}", placement);
        assert_eq!(get_game_phase(&there), get_game_phase(&here), "{}", placement);
    }
}

#[test]
fn a_queen_on_the_edge_scores_alike_for_both_sides() {
    let white = board("4k3/8/8/Q7/8/8/8/4K3 w - - 0 1");
    let black = board("4k3/8/8/8/q7/8/8/4K3 b - - 0 1");
    assert_eq!(eval(&white, 0), 900);
    assert_eq!(eval(&black, 0), -900);
    // The queen's table is not the same left and right: h5 is worth less.
    let right = board("4k3/8/8/7Q/8/8/8/4K3 b - - 0 1");
    let right_black = board("4k3/8/8/8/7q/8/8/4K3 w - - 0 1");
    assert_eq!(eval_pst_opening(&right), -5);
    assert_eq!(eval_pst_opening(&right_black), 5);
    assert_eq!(eval(&right, 0), 898);
    assert_eq!(eval(&right_black, 0), -898);
    // A mated side scores alike, too.
    let white_mated = board("rnb1kbnr/pppp1ppp/8/4p3/6Pq/5P2/PPPPP2P/RNBQKBNR w KQkq - 1 3");
    let black_mated = board("rnbqkbnr/ppppp2p/5p2/6pQ/4P3/8/PPPP1PPP/RNB1KBNR b KQkq - 1 3");
    assert_eq!(eval(&black_mated, 2), -eval(&white_mated, 2));
}

#[test]
fn static_scores_stay_far_inside_the_range() {
    // Six queens against a bare king, a full board, a mate far from the
    // root: every score stays within twenty million of zero.
    let fens = [
        "1QQQQQQ1/8/8/8/8/8/7k/K7 b - - 0 1",
        "rnbqkbnr/pppppppp/8/8/8/8/PPPPPPPP/RNBQKBNR w KQkq - 0 1",
        "1qqqqqq1/8/8/8/8/8/7K/k7 w - - 0 1",
        "R5k1/5ppp/8/8/8/8/8/4K3 b - - 1 1",
    ];
    for fen in fens {
        for ply in [0u8, 1, 100, 255] {
            let score = eval(&board(fen), ply);
            assert!(-20_000_000 <= score && score <= 20_000_000, "{} at {}", fen, ply);
        }
    }
    assert_eq!(eval(&board("R5k1/5ppp/8/8/8/8/8/4K3 b - - 1 1"), 255), 1_000_000 - 255_000);
}
