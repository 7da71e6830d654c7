//! The boundary to `cozy_chess`: the board type, a mathematical record of
//! what a board holds, and one thin function per board method the engine calls.
//!
//! The functions marked `external_body` are not proved. Each states what the
//! `cozy_chess` source shows of the method it calls; the rest of the crate is
//! verified against these statements.

use vstd::prelude::*;
use crate::types::{Color, GameStatus, Move, Piece};

verus! {

/// `cozy_chess::Board`, a chess position. What it holds is spoken of
/// through `board_record`.
#[verifier::external_type_specification]
#[verifier::external_body]
pub struct ExBoard(cozy_chess::Board);

/// Number of entries in a board record.
pub const RECORD_LEN: usize = 72;

/// Index of the side to move in a board record: 0 for White, 1 for Black.
pub const RECORD_SIDE: usize = 64;

/// Index of the half-move clock in a board record.
pub const RECORD_HALFMOVE: usize = 70;

/// Index of the full-move number in a board record.
pub const RECORD_FULLMOVE: usize = 71;

/// The pieces by their index.
pub const PIECES: [Piece; 6] = [
    Piece::Pawn,
    Piece::Knight,
    Piece::Bishop,
    Piece::Rook,
    Piece::Queen,
    Piece::King,
];

/// The colours by their index.
pub const COLORS: [Color; 2] = [Color::White, Color::Black];

/// The game states in the order in which `cozy_chess` declares them.
pub const STATUSES: [GameStatus; 3] = [GameStatus::Won, GameStatus::Drawn, GameStatus::Ongoing];

/// What a board holds, as a sequence of `RECORD_LEN` numbers. Entries 0 to
/// 63 say what stands on each square, a1 first and h8 last: 0 for nothing,
/// else `square_code` of the piece's colour and kind. Entry `RECORD_SIDE` is
/// the side to move. Entries 65 to 68 are the files of the rooks with which
/// White may castle short and long and Black may castle short and long, and
/// entry 69 is the file of a pawn that may be taken in passing; files count
/// from 0 for the a-file, and 8 stands for none. Entry `RECORD_HALFMOVE` is
/// the half-move clock and entry `RECORD_FULLMOVE` the full-move number. A
/// board has no state beyond this, so what `cozy_chess` computes from a
/// board is a function of its record.
pub uninterp spec fn board_record(board: cozy_chess::Board) -> Seq<u16>;

/// The record of the position that a text in Forsyth-Edwards notation
/// describes, if it describes one.
pub uninterp spec fn fen_record(fen: Seq<char>) -> Option<Seq<u16>>;

/// The move that a text names on a board in the notation of the protocol,
/// if it names one. The move need not be legal.
pub uninterp spec fn uci_move(record: Seq<u16>, text: Seq<char>) -> Option<Move>;

/// The position that a record describes, written in Forsyth-Edwards notation.
pub uninterp spec fn record_fen(record: Seq<u16>) -> Seq<char>;

/// A move as the protocol names it on a board: in coordinates, with a king
/// that moves onto a rook with which it may castle named by the king's
/// two-square move.
pub uninterp spec fn record_uci_text(record: Seq<u16>, mv: Move) -> Seq<char>;

/// The Zobrist hash of the position that a record describes.
pub uninterp spec fn record_hash(record: Seq<u16>) -> u64;

/// The legal moves in the position that a record describes, in the order in
/// which `cozy_chess` generates them.
pub uninterp spec fn record_moves(record: Seq<u16>) -> Seq<Move>;

/// The record of the board reached by playing a legal move.
pub uninterp spec fn record_after(record: Seq<u16>, mv: Move) -> Seq<u16>;

/// The number of pieces that give check to the side to move.
pub uninterp spec fn record_checks(record: Seq<u16>) -> nat;

/// The number that stands for a piece of a colour on a square of a record.
pub open spec fn square_code(color: Color, piece: Piece) -> u16 {
    (1 + 6 * color.index() + piece.index()) as u16
}

/// The kind of piece that a square's number stands for.
pub open spec fn code_piece(code: u16) -> Option<Piece> {
    if code == 0 || code > 12 {
        None
    } else if code % 6 == 1 {
        Some(Piece::Pawn)
    } else if code % 6 == 2 {
        Some(Piece::Knight)
    } else if code % 6 == 3 {
        Some(Piece::Bishop)
    } else if code % 6 == 4 {
        Some(Piece::Rook)
    } else if code % 6 == 5 {
        Some(Piece::Queen)
    } else {
        Some(Piece::King)
    }
}

/// The squares below `upto` on which a record has `code`, in ascending order.
pub open spec fn squares_holding(record: Seq<u16>, code: u16, upto: int) -> Seq<u8>
    decreases upto,
{
    if upto <= 0 {
        Seq::empty()
    } else {
        let rest = squares_holding(record, code, upto - 1);
        if record[upto - 1] == code {
            rest.push((upto - 1) as u8)
        } else {
            rest
        }
    }
}

/// The squares on which pieces of one colour and kind stand, in ascending order.
pub open spec fn squares_of(record: Seq<u16>, color: Color, piece: Piece) -> Seq<u8> {
    squares_holding(record, square_code(color, piece), 64)
}

/// What stands on a square at the start of a game.
pub open spec fn start_code(square: int) -> u16 {
    let file = square % 8;
    let officer: u16 = if file == 0 || file == 7 {
        4
    } else if file == 1 || file == 6 {
        2
    } else if file == 2 || file == 5 {
        3
    } else if file == 3 {
        5
    } else {
        6
    };
    if square < 8 {
        officer
    } else if square < 16 {
        1
    } else if square < 48 {
        0
    } else if square < 56 {
        7
    } else {
        (officer + 6) as u16
    }
}

/// The record of the start of a game: the pieces on their home squares,
/// White to move, every castling right, no pawn to take in passing, the
/// half-move clock at 0 and the full-move number at 1.
pub open spec fn start_record() -> Seq<u16> {
    Seq::new(
        RECORD_LEN as nat,
        |i: int|
            if i < 64 {
                start_code(i)
            } else if i == 65 || i == 67 {
                7u16
            } else if i == 69 {
                8u16
            } else if i == 71 {
                1u16
            } else {
                0u16
            },
    )
}

/// The side to move in a record.
pub open spec fn side_of(record: Seq<u16>) -> Color {
    if record[RECORD_SIDE as int] == 0 {
        Color::White
    } else {
        Color::Black
    }
}

/// The state of the game in a record: with a legal move left the game goes
/// on until the half-move clock reaches 100; with none left the side to move
/// is mated if it stands in check and stalemated if not.
pub open spec fn status_of(record: Seq<u16>) -> GameStatus {
    if record_moves(record).len() > 0 {
        if record[RECORD_HALFMOVE as int] < 100 {
            GameStatus::Ongoing
        } else {
            GameStatus::Drawn
        }
    } else if record_checks(record) == 0 {
        GameStatus::Drawn
    } else {
        GameStatus::Won
    }
}

/// `Board::clone`: a copy holds what the board holds.
pub assume_specification[ <cozy_chess::Board as Clone>::clone ](board: &cozy_chess::Board) -> (copy:
    cozy_chess::Board)
    ensures
        board_record(copy) == board_record(*board),
;

/// `Board::default`: the board at the start of a game.
#[verifier::external_body]
pub(crate) fn startpos() -> (board: cozy_chess::Board)
    ensures
        board_record(board) == start_record(),
{
    cozy_chess::Board::default()
}

/// `Board::from_fen` for standard chess: the board that a text describes,
/// or nothing if the text describes none.
#[verifier::external_body]
pub(crate) fn from_fen(fen: &str) -> (board: Option<cozy_chess::Board>)
    ensures
        match board {
            Some(b) => fen_record(fen@) == Some(board_record(b)),
            None => fen_record(fen@) is None,
        },
{
    cozy_chess::Board::from_fen(fen, false).ok()
}

/// `cozy_chess::util::parse_uci_move`: the move that a text names on a
/// board, castling rewritten as the king moving onto its rook. A move's
/// squares are squares of the board.
#[verifier::external_body]
pub(crate) fn parse_uci_move(board: &cozy_chess::Board, text: &str) -> (mv: Option<Move>)
    ensures
        mv == uci_move(board_record(*board), text@),
        mv matches Some(m) ==> m.from < 64 && m.to < 64,
{
    cozy_chess::util::parse_uci_move(board, text).ok().map(|m| Move {
        from: m.from as u8,
        to: m.to as u8,
        promotion: m.promotion.map(|p| PIECES[p as usize]),
    })
}

/// `cozy_chess::util::display_uci_move`, written out: the name of a move in
/// the notation of the protocol. The move need not be legal; its squares
/// must be squares of the board.
#[verifier::external_body]
pub(crate) fn display_uci_move(board: &cozy_chess::Board, mv: Move) -> (text: String)
    requires
        mv.from < 64,
        mv.to < 64,
    ensures
        text@ == record_uci_text(board_record(*board), mv),
{
    let named = cozy_chess::Move {
        from: cozy_chess::Square::index(mv.from as usize),
        to: cozy_chess::Square::index(mv.to as usize),
        promotion: mv.promotion.map(|p| cozy_chess::Piece::index(p as usize)),
    };
    format!("{}", cozy_chess::util::display_uci_move(board, named))
}

/// `Board`'s `Display`: the position in Forsyth-Edwards notation.
#[verifier::external_body]
pub(crate) fn to_fen(board: &cozy_chess::Board) -> (fen: String)
    ensures
        fen@ == record_fen(board_record(*board)),
{
    format!("{}", board)
}

/// `Board::hash`: the position's Zobrist hash, a function of the record alone
/// because the keys are compile-time constants.
#[verifier::external_body]
pub(crate) fn hash(board: &cozy_chess::Board) -> (h: u64)
    ensures
        h == record_hash(board_record(*board)),
{
    board.hash()
}

/// `Board::status`, which the source computes as `status_of` says.
#[verifier::external_body]
pub(crate) fn status(board: &cozy_chess::Board) -> (s: GameStatus)
    ensures
        s == status_of(board_record(*board)),
{
    STATUSES[board.status() as usize]
}

/// `Board::side_to_move`.
#[verifier::external_body]
pub(crate) fn side_to_move(board: &cozy_chess::Board) -> (c: Color)
    ensures
        c == side_of(board_record(*board)),
{
    COLORS[board.side_to_move() as usize]
}

/// `Board::fullmove_number`.
#[verifier::external_body]
pub(crate) fn fullmove_number(board: &cozy_chess::Board) -> (n: u16)
    ensures
        n == board_record(*board)[RECORD_FULLMOVE as int],
{
    board.fullmove_number()
}

/// `Board::checkers`, counted: the number of pieces that give check.
#[verifier::external_body]
pub(crate) fn checking_pieces(board: &cozy_chess::Board) -> (n: u32)
    ensures
        n == record_checks(board_record(*board)),
{
    board.checkers().len()
}

/// `Board::piece_on`: the kind of piece on a square, if any.
#[verifier::external_body]
pub(crate) fn piece_on(board: &cozy_chess::Board, square: u8) -> (p: Option<Piece>)
    requires
        square < 64,
    ensures
        p == code_piece(board_record(*board)[square as int]),
{
    board.piece_on(cozy_chess::Square::index(square as usize)).map(|p| PIECES[p as usize])
}

/// `Board::colored_pieces`, handed out square by square. A `BitBoard` yields
/// its squares from the lowest to the highest.
#[verifier::external_body]
pub(crate) fn colored_pieces(board: &cozy_chess::Board, color: Color, piece: Piece) -> (squares: Vec<u8>)
    ensures
        squares@ == squares_of(board_record(*board), color, piece),
{
    let c = cozy_chess::Color::index(color as usize);
    let p = cozy_chess::Piece::index(piece as usize);
    board.colored_pieces(c, p).into_iter().map(|s| s as u8).collect()
}

/// `Board::generate_moves`, with every move unpacked in the order in which
/// it arrives. A move's squares are squares of the board.
#[verifier::external_body]
pub(crate) fn generate_moves(board: &cozy_chess::Board) -> (moves: Vec<Move>)
    ensures
        moves@ == record_moves(board_record(*board)),
        forall|i: int| 0 <= i < moves@.len() ==> moves@[i].from < 64 && moves@[i].to < 64,
{
    let mut out = Vec::new();
    board.generate_moves(|moves| {
        out.extend(moves.into_iter().map(|m| Move {
            from: m.from as u8,
            to: m.to as u8,
            promotion: m.promotion.map(|p| PIECES[p as usize]),
        }));
        false
    });
    out
}

/// `Board::play` on a copy of the board. It panics on an illegal move, so
/// only legal ones are admitted.
#[verifier::external_body]
pub(crate) fn play(board: &cozy_chess::Board, mv: Move) -> (next: cozy_chess::Board)
    requires
        record_moves(board_record(*board)).contains(mv),
    ensures
        board_record(next) == record_after(board_record(*board), mv),
{
    let mut next = board.clone();
    next.play(cozy_chess::Move {
        from: cozy_chess::Square::index(mv.from as usize),
        to: cozy_chess::Square::index(mv.to as usize),
        promotion: mv.promotion.map(|p| cozy_chess::Piece::index(p as usize)),
    });
    next
}

/// A list of squares holds at most `upto` squares, each below `upto`.
pub proof fn lemma_squares_holding(record: Seq<u16>, code: u16, upto: int)
    requires
        0 <= upto <= 256,
    ensures
        squares_holding(record, code, upto).len() <= upto,
        forall|i: int|
            0 <= i < squares_holding(record, code, upto).len() ==> #[trigger] squares_holding(
                record,
                code,
                upto,
            )[i] < upto,
    decreases upto,
{
    if upto > 0 {
        lemma_squares_holding(record, code, upto - 1);
    }
}

/// A square is among the squares that hold a code just when the record has
/// the code there.
pub proof fn lemma_squares_holding_contains(record: Seq<u16>, code: u16, upto: int, square: int)
    requires
        0 <= square < 256,
        0 <= upto <= 256,
    ensures
        squares_holding(record, code, upto).contains(square as u8) <==> square < upto
            && record[square] == code,
    decreases upto,
{
    if upto > 0 {
        lemma_squares_holding_contains(record, code, upto - 1, square);
        lemma_squares_holding(record, code, upto - 1);
        let rest = squares_holding(record, code, upto - 1);
        if record[upto - 1] == code {
            let list = rest.push((upto - 1) as u8);
            if rest.contains(square as u8) {
                let k = choose|k: int| 0 <= k < rest.len() && rest[k] == square as u8;
                assert(list[k] == square as u8);
            }
            if square == upto - 1 {
                assert(list[rest.len() as int] == square as u8);
            }
            if list.contains(square as u8) {
                let k = choose|k: int| 0 <= k < list.len() && list[k] == square as u8;
                if k < rest.len() {
                    assert(rest[k] == square as u8);
                }
            }
        }
    }
}

/// The pieces of one colour and kind stand on at most 64 squares of the board.
pub proof fn lemma_squares_of(record: Seq<u16>, color: Color, piece: Piece)
    ensures
        squares_of(record, color, piece).len() <= 64,
        forall|i: int|
            0 <= i < squares_of(record, color, piece).len() ==> #[trigger] squares_of(
                record,
                color,
                piece,
            )[i] < 64,
{
    lemma_squares_holding(record, square_code(color, piece), 64);
}

} // verus!
