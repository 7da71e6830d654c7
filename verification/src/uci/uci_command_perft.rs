//! The `perft` command: counting the leaves of the tree of moves.

use vstd::prelude::*;
use vstd::string::StringExecFns;
use crate::board::board_record;
use crate::clock::{elapsed_ms, now};
use crate::perft::{held, perft, uci_perft};
use crate::text::{decimal, parse_number, push_decimal, spelled_number};
use crate::uci::uci_loop::UciData;

verus! {

/// The depth counted to where the command names none.
pub const DEFAULT_PERFT_DEPTH: u8 = 5;

/// The depth that a `perft` command names: the second word if it is a
/// number up to 255, else the default.
pub open spec fn perft_depth(tokens: Seq<String>) -> u8 {
    if tokens.len() > 1 {
        match spelled_number(tokens[1]@) {
            Some(n) => if n <= u8::MAX {
                n as u8
            } else {
                DEFAULT_PERFT_DEPTH
            },
            None => DEFAULT_PERFT_DEPTH,
        }
    } else {
        DEFAULT_PERFT_DEPTH
    }
}

/// Leaves per second, capped at the largest `u64`; 0 before the first
/// millisecond has passed.
pub open spec fn perft_speed(nodes: u64, elapsed: u64) -> u64 {
    if elapsed == 0 {
        0
    } else if nodes * 1000 / (elapsed as int) > u64::MAX {
        u64::MAX
    } else {
        (nodes * 1000 / (elapsed as int)) as u64
    }
}

/// The line that reports a count that took `elapsed` milliseconds.
pub open spec fn perft_chars(nodes: u64, elapsed: u64) -> Seq<char> {
    "nodes: "@ + decimal(nodes as nat) + ", time: "@ + decimal(elapsed as nat) + "ms, nps: "@
        + decimal(perft_speed(nodes, elapsed) as nat)
}

/// Reads the depth that a `perft` command names.
pub fn parse_perft_depth(tokens: &Vec<String>) -> (depth: u8)
    ensures
        depth == perft_depth(tokens@),
{
    if tokens.len() > 1 {
        if let Some(n) = parse_number(tokens[1].as_str()) {
            if n <= 255 {
                return n as u8;
            }
        }
    }
    DEFAULT_PERFT_DEPTH
}

/// Carries out a `perft` command: counts, and hands back the count with
/// the line that reports it, the milliseconds taken and the leaves per
/// second. How long the count takes is up to the machine; whatever it
/// takes, the line is what `perft_chars` lays down for that time.
pub fn do_uci_command_perft(uci_data: &UciData, tokens: &Vec<String>) -> (outcome: (u64, String))
    ensures
        outcome.0 == held(perft(board_record(uci_data.board), perft_depth(tokens@) as nat)),
        exists|elapsed: u64| outcome.1@ == #[trigger] perft_chars(outcome.0, elapsed),
{
    let depth = parse_perft_depth(tokens);
    let start = now();
    let nodes = uci_perft(&uci_data.board, depth);
    let elapsed = elapsed_ms(&start);
    let elapsed: u64 = if elapsed > u64::MAX as u128 {
        u64::MAX
    } else {
        elapsed as u64
    };
    let nps: u64 = if elapsed > 0 {
        let rate: u128 = nodes as u128 * 1000 / (elapsed as u128);
        if rate > u64::MAX as u128 {
            u64::MAX
        } else {
            rate as u64
        }
    } else {
        0
    };
    let mut line = String::from_str("nodes: ");
    push_decimal(&mut line, nodes);
    line.append(", time: ");
    push_decimal(&mut line, elapsed);
    line.append("ms, nps: ");
    push_decimal(&mut line, nps);
    let outcome = (nodes, line);
    assert(outcome.1@ == perft_chars(outcome.0, elapsed));
    outcome
}

} // verus!
