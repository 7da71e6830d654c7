//! The `position` command: setting up the board and playing moves on it.

use vstd::prelude::*;
use vstd::string::StringExecFns;
use crate::board::{
    board_record,
    fen_record,
    from_fen,
    generate_moves,
    hash,
    parse_uci_move,
    play,
    record_after,
    record_hash,
    record_moves,
    start_record,
    startpos,
    uci_move,
};
use crate::search::order_moves::contains_move;
use crate::text::same_text;
use crate::uci::uci_loop::UciData;

verus! {

/// The number of words that describe a position in Forsyth-Edwards notation.
pub const FEN_PARTS: usize = 6;

/// Why a `position` command could not be carried out.
#[derive(Clone, Copy, Debug, PartialEq, Eq, Structural)]
pub enum PositionError {
    /// The words behind `fen` describe no position.
    InvalidFen,
    /// A word behind `moves` names no legal move where it stands.
    IllegalMove,
}

/// A board with the hashes of the positions that led to it, and whether
/// every move asked for could be played.
pub struct Placement {
    pub record: Seq<u16>,
    pub history: Seq<u64>,
    pub complete: bool,
}

/// The words from index `from` up to index `to`, with a blank between two words.
pub open spec fn joined(tokens: Seq<String>, from: int, to: int) -> Seq<char>
    decreases to - from,
{
    if from >= to {
        Seq::empty()
    } else if from + 1 == to {
        tokens[from]@
    } else {
        joined(tokens, from, to - 1) + " "@ + tokens[to - 1]@
    }
}

/// The board after the moves that the words from index `from` on name were
/// played in turn, each hash added to the history. A word that names no
/// legal move ends the play where it stands.
pub open spec fn play_words(record: Seq<u16>, history: Seq<u64>, tokens: Seq<String>, from: int) -> Placement
    decreases tokens.len() - from,
{
    if from < 0 || from >= tokens.len() {
        Placement { record, history, complete: true }
    } else {
        match uci_move(record, tokens[from]@) {
            Some(mv) => if record_moves(record).contains(mv) {
                let next = record_after(record, mv);
                play_words(next, history.push(record_hash(next)), tokens, from + 1)
            } else {
                Placement { record, history, complete: false }
            },
            None => Placement { record, history, complete: false },
        }
    }
}

/// A position set up anew, with the moves played that the words name
/// behind the word `moves` at index `at`, if that word stands there.
pub open spec fn set_up(record: Seq<u16>, tokens: Seq<String>, at: int) -> Placement {
    let history = seq![record_hash(record)];
    if tokens.len() > at && tokens[at]@ == "moves"@ {
        play_words(record, history, tokens, at + 1)
    } else {
        Placement { record, history, complete: true }
    }
}

/// What a `position` command makes of the board: `position startpos` sets
/// up the start of a game and `position fen` the position that the next
/// six words describe, each followed by `moves` and the moves to play if
/// wanted. Any other command leaves the board as it is; so does a `fen`
/// that describes no position, which is `None` here.
pub open spec fn position_after(record: Seq<u16>, history: Seq<u64>, tokens: Seq<String>) -> Option<
    Placement,
> {
    if tokens.len() < 2 {
        Some(Placement { record, history, complete: true })
    } else if tokens[1]@ == "startpos"@ {
        Some(set_up(start_record(), tokens, 2))
    } else if tokens[1]@ == "fen"@ {
        if tokens.len() < 2 + FEN_PARTS {
            None
        } else {
            match fen_record(joined(tokens, 2, 2 + FEN_PARTS)) {
                Some(described) => Some(set_up(described, tokens, 2 + FEN_PARTS)),
                None => None,
            }
        }
    } else {
        Some(Placement { record, history, complete: true })
    }
}

/// Plays the moves that the words from index `from` on name. Stops at the
/// first word that names no legal move.
fn play_moves(uci_data: &mut UciData, tokens: &Vec<String>, from: usize) -> (complete: bool)
    ensures
        ({
            let placed = play_words(
                board_record(old(uci_data).board),
                old(uci_data).current_move_history@,
                tokens@,
                from as int,
            );
            &&& board_record(final(uci_data).board) == placed.record
            &&& final(uci_data).current_move_history@ == placed.history
            &&& complete == placed.complete
            &&& final(uci_data).is_playing == old(uci_data).is_playing
        }),
{
    let ghost goal = play_words(
        board_record(uci_data.board),
        uci_data.current_move_history@,
        tokens@,
        from as int,
    );
    let mut i: usize = from;
    while i < tokens.len()
        invariant
            play_words(
                board_record(uci_data.board),
                uci_data.current_move_history@,
                tokens@,
                i as int,
            ) == goal,
            goal == play_words(
                board_record(old(uci_data).board),
                old(uci_data).current_move_history@,
                tokens@,
                from as int,
            ),
            uci_data.is_playing == old(uci_data).is_playing,
        decreases tokens@.len() - i,
    {
        let mv = match parse_uci_move(&uci_data.board, tokens[i].as_str()) {
            Some(mv) => mv,
            None => {
                return false;
            },
        };
        let legal = generate_moves(&uci_data.board);
        if !contains_move(&legal, mv) {
            return false;
        }
        let next = play(&uci_data.board, mv);
        uci_data.current_move_history.push(hash(&next));
        uci_data.board = next;
        i = i + 1;
    }
    true
}

/// Carries out a `position` command. Where a word names no legal move the
/// moves before it stay played and the command fails; where the words
/// describe no position the board stays as it was and the command fails.
pub fn do_uci_command_position(uci_data: &mut UciData, tokens: &Vec<String>) -> (done: Result<
    (),
    PositionError,
>)
    ensures
        final(uci_data).is_playing == old(uci_data).is_playing,
        match position_after(
            board_record(old(uci_data).board),
            old(uci_data).current_move_history@,
            tokens@,
        ) {
            Some(placed) => {
                &&& board_record(final(uci_data).board) == placed.record
                &&& final(uci_data).current_move_history@ == placed.history
                &&& done == if placed.complete {
                    Ok::<(), PositionError>(())
                } else {
                    Err::<(), PositionError>(PositionError::IllegalMove)
                }
            },
            None => {
                &&& board_record(final(uci_data).board) == board_record(old(uci_data).board)
                &&& final(uci_data).current_move_history@ == old(uci_data).current_move_history@
                &&& done == Err::<(), PositionError>(PositionError::InvalidFen)
            },
        },
{
    if tokens.len() < 2 {
        return Ok(());
    }
    let at: usize;
    if same_text(tokens[1].as_str(), "startpos") {
        uci_data.board = startpos();
        at = 2;
    } else if same_text(tokens[1].as_str(), "fen") {
        if tokens.len() < 2 + FEN_PARTS {
            return Err(PositionError::InvalidFen);
        }
        let mut fen = String::new();
        let mut i: usize = 2;
        while i < 2 + FEN_PARTS
            invariant
                2 <= i <= 2 + FEN_PARTS <= tokens@.len(),
                fen@ == joined(tokens@, 2, i as int),
            decreases 2 + FEN_PARTS - i,
        {
            if i > 2 {
                fen.append(" ");
            }
            fen.append(tokens[i].as_str());
            assert(fen@ =~= joined(tokens@, 2, i + 1));
            i = i + 1;
        }
        match from_fen(fen.as_str()) {
            Some(board) => {
                uci_data.board = board;
            },
            None => {
                return Err(PositionError::InvalidFen);
            },
        }
        at = 2 + FEN_PARTS;
    } else {
        return Ok(());
    }
    let mut history: Vec<u64> = Vec::new();
    history.push(hash(&uci_data.board));
    uci_data.current_move_history = history;
    if tokens.len() > at && same_text(tokens[at].as_str(), "moves") {
        if !play_moves(uci_data, tokens, at + 1) {
            return Err(PositionError::IllegalMove);
        }
    }
    Ok(())
}

/// What the `position` command of the plain loop makes of the board:
/// `position startpos` sets up the start of a game, followed by `moves` and
/// the moves to play if wanted; `position fen` sets up the position that
/// all the words behind it describe; `position moves` plays moves on the
/// board as it stands. Any other command leaves the board as it is; so
/// does a `fen` that describes no position, which is `None` here.
pub open spec fn plain_position_after(record: Seq<u16>, history: Seq<u64>, tokens: Seq<String>) -> Option<
    Placement,
> {
    if tokens.len() < 2 {
        Some(Placement { record, history, complete: true })
    } else if tokens[1]@ == "startpos"@ {
        Some(set_up(start_record(), tokens, 2))
    } else if tokens[1]@ == "fen"@ {
        match fen_record(joined(tokens, 2, tokens.len() as int)) {
            Some(described) => Some(
                Placement { record: described, history: seq![record_hash(described)], complete: true },
            ),
            None => None,
        }
    } else if tokens[1]@ == "moves"@ {
        Some(play_words(record, history, tokens, 2))
    } else {
        Some(Placement { record, history, complete: true })
    }
}

/// Carries out the `position` command of the plain loop. Where a word
/// names no legal move the moves before it stay played and the command
/// fails; where the words describe no position the board stays as it was
/// and the command fails.
pub fn do_plain_position(uci_data: &mut UciData, tokens: &Vec<String>) -> (done: Result<(), PositionError>)
    ensures
        final(uci_data).is_playing == old(uci_data).is_playing,
        match plain_position_after(
            board_record(old(uci_data).board),
            old(uci_data).current_move_history@,
            tokens@,
        ) {
            Some(placed) => {
                &&& board_record(final(uci_data).board) == placed.record
                &&& final(uci_data).current_move_history@ == placed.history
                &&& done == if placed.complete {
                    Ok::<(), PositionError>(())
                } else {
                    Err::<(), PositionError>(PositionError::IllegalMove)
                }
            },
            None => {
                &&& board_record(final(uci_data).board) == board_record(old(uci_data).board)
                &&& final(uci_data).current_move_history@ == old(uci_data).current_move_history@
                &&& done == Err::<(), PositionError>(PositionError::InvalidFen)
            },
        },
{
    if tokens.len() < 2 {
        return Ok(());
    }
    if same_text(tokens[1].as_str(), "startpos") {
        uci_data.board = startpos();
        let mut history: Vec<u64> = Vec::new();
        history.push(hash(&uci_data.board));
        uci_data.current_move_history = history;
        if tokens.len() > 2 && same_text(tokens[2].as_str(), "moves") {
            if !play_moves(uci_data, tokens, 3) {
                return Err(PositionError::IllegalMove);
            }
        }
        Ok(())
    } else if same_text(tokens[1].as_str(), "fen") {
        let mut fen = String::new();
        let mut i: usize = 2;
        while i < tokens.len()
            invariant
                2 <= i <= tokens@.len(),
                fen@ == joined(tokens@, 2, i as int),
            decreases tokens@.len() - i,
        {
            if i > 2 {
                fen.append(" ");
            }
            fen.append(tokens[i].as_str());
            assert(fen@ =~= joined(tokens@, 2, i + 1));
            i = i + 1;
        }
        match from_fen(fen.as_str()) {
            Some(board) => {
                uci_data.board = board;
                let mut history: Vec<u64> = Vec::new();
                history.push(hash(&uci_data.board));
                uci_data.current_move_history = history;
                Ok(())
            },
            None => Err(PositionError::InvalidFen),
        }
    } else if same_text(tokens[1].as_str(), "moves") {
        if !play_moves(uci_data, tokens, 2) {
            return Err(PositionError::IllegalMove);
        }
        Ok(())
    } else {
        Ok(())
    }
}

} // verus!
