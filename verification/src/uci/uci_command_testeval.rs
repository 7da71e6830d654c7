//! The `testeval` command: the static score of the position on the board.

use vstd::prelude::*;
use vstd::string::StringExecFns;
use crate::board::{board_record, record_fen, to_fen};
use crate::eval::eval::{eval, eval_score};
use crate::text::{push_signed, signed_decimal};
use crate::uci::uci_loop::UciData;

verus! {

/// The line that reports the static score of a position.
pub open spec fn testeval_chars(record: Seq<u16>) -> Seq<char> {
    "info score cp "@ + signed_decimal(eval_score(record, 0)) + " position fen "@ + record_fen(record)
}

/// Carries out a `testeval` command: the line that reports the static
/// score of the position on the board.
pub fn do_uci_command_testeval(uci_data: &UciData) -> (line: String)
    ensures
        line@ == testeval_chars(board_record(uci_data.board)),
{
    let score = eval(&uci_data.board, 0);
    let fen = to_fen(&uci_data.board);
    let mut line = String::from_str("info score cp ");
    push_signed(&mut line, score as i64);
    line.append(" position fen ");
    line.append(fen.as_str());
    line
}

} // verus!
