//! What the command loop keeps between commands.

use vstd::prelude::*;
use cozy_chess::Board;
use std::sync::atomic::AtomicBool;
use std::sync::Arc;
use crate::board::{board_record, hash, record_hash, start_record, startpos};
use crate::text::same_text;

verus! {

/// The position on the board, the hashes of the positions that led to it,
/// the last being its own, and the flag by which a search is stopped.
#[derive(Clone)]
pub struct UciData {
    pub board: Board,
    pub current_move_history: Vec<u64>,
    pub is_playing: Arc<AtomicBool>,
}

impl UciData {
    /// The start of a game, with no search running.
    pub fn new() -> (data: Self)
        ensures
            board_record(data.board) == start_record(),
            data.current_move_history@ == seq![record_hash(start_record())],
    {
        let board = startpos();
        let mut current_move_history: Vec<u64> = Vec::new();
        current_move_history.push(hash(&board));
        UciData { board, current_move_history, is_playing: Arc::new(AtomicBool::new(false)) }
    }
}

/// The commands that the loop knows.
#[derive(Clone, Copy, Debug, PartialEq, Eq, Structural)]
pub enum UciCommand {
    Uci,
    IsReady,
    Perft,
    Position,
    Go,
    Stop,
    TestEval,
    NewGame,
    Fen,
    Quit,
    /// An empty line.
    Nothing,
    /// A line that begins with no known command; it is passed over.
    Unknown,
}

/// The command that a line of words gives, by its first word.
pub open spec fn command_of(tokens: Seq<String>) -> UciCommand {
    if tokens.len() == 0 {
        UciCommand::Nothing
    } else if tokens[0]@ == "uci"@ {
        UciCommand::Uci
    } else if tokens[0]@ == "isready"@ {
        UciCommand::IsReady
    } else if tokens[0]@ == "perft"@ {
        UciCommand::Perft
    } else if tokens[0]@ == "position"@ {
        UciCommand::Position
    } else if tokens[0]@ == "go"@ {
        UciCommand::Go
    } else if tokens[0]@ == "stop"@ {
        UciCommand::Stop
    } else if tokens[0]@ == "testeval"@ {
        UciCommand::TestEval
    } else if tokens[0]@ == "ucinewgame"@ {
        UciCommand::NewGame
    } else if tokens[0]@ == "fen"@ {
        UciCommand::Fen
    } else if tokens[0]@ == "quit"@ {
        UciCommand::Quit
    } else {
        UciCommand::Unknown
    }
}

/// Tells which command a line of words gives.
pub fn read_command(tokens: &Vec<String>) -> (command: UciCommand)
    ensures
        command == command_of(tokens@),
{
    if tokens.len() == 0 {
        return UciCommand::Nothing;
    }
    let word = tokens[0].as_str();
    if same_text(word, "uci") {
        UciCommand::Uci
    } else if same_text(word, "isready") {
        UciCommand::IsReady
    } else if same_text(word, "perft") {
        UciCommand::Perft
    } else if same_text(word, "position") {
        UciCommand::Position
    } else if same_text(word, "go") {
        UciCommand::Go
    } else if same_text(word, "stop") {
        UciCommand::Stop
    } else if same_text(word, "testeval") {
        UciCommand::TestEval
    } else if same_text(word, "ucinewgame") {
        UciCommand::NewGame
    } else if same_text(word, "fen") {
        UciCommand::Fen
    } else if same_text(word, "quit") {
        UciCommand::Quit
    } else {
        UciCommand::Unknown
    }
}

} // verus!
