//! The `go` command: iterative deepening under a depth limit and a time budget.

use vstd::prelude::*;
use vstd::string::{StrSliceExecFns, StringExecFns};
use cozy_chess::Board;
use std::collections::HashMap;
use std::sync::atomic::AtomicBool;
use crate::board::{
    board_record,
    display_uci_move,
    generate_moves,
    play,
    record_after,
    record_moves,
    record_uci_text,
    side_of,
    side_to_move,
};
use crate::clock::{elapsed_ms, now};
use crate::search::transposition_table::{kept_or_deepened, EntryView};
use crate::types::Color;
use crate::uci::uci_loop::UciData;
use crate::eval::eval_is_mate::{is_mate_score, is_mate_value, MATE_PLY_PENALTY, MATE_SCORE};
use crate::eval::eval_mop_up::div_toward_zero;
use crate::search::order_moves::contains_move;
use crate::search::stop::{start_playing, still_playing};
use crate::text::{
    decimal,
    move_chars,
    parse_number,
    push_decimal,
    push_move,
    push_signed,
    same_text,
    signed_decimal,
    spelled_number,
    texts,
};
use crate::search::killers::{killer_lines, KILLER_PLIES};
use crate::search::mini_max::{copy_list, mini_max, search, SearchResult, SearchState};
use crate::search::transposition_table::TranspositionTable;
use crate::types::Move;

verus! {

/// The depth searched to where the command names none.
pub const DEFAULT_MAX_DEPTH: u8 = 64;

/// The clock assumed where the command names none: three minutes.
pub const DEFAULT_CLOCK: u64 = 180_000;

/// The increment assumed where the command names none: two seconds.
pub const DEFAULT_INCREMENT: u64 = 2_000;

/// The limits of a search: the deepest depth and the time in milliseconds,
/// 0 for no limit of time.
#[derive(Clone, Copy, Debug, PartialEq, Eq, Structural)]
pub struct GoLimits {
    pub max_depth: u8,
    pub time: u64,
}

/// The value of a clock argument after the words before index `upto` have
/// been read: the number behind the last word that is the argument's name
/// and has a number behind it, or the default.
pub open spec fn clock_argument(tokens: Seq<String>, name: Seq<char>, upto: int, default: u64) -> u64
    decreases upto,
{
    if upto <= 1 {
        default
    } else {
        let before = clock_argument(tokens, name, upto - 1, default);
        if tokens[upto - 1]@ == name && upto < tokens.len() {
            match spelled_number(tokens[upto]@) {
                Some(n) => if n <= u64::MAX {
                    n as u64
                } else {
                    before
                },
                None => before,
            }
        } else {
            before
        }
    }
}

/// The depth that a `go depth` command names: the third word if it is a
/// number up to 255, else the default.
pub open spec fn depth_argument(tokens: Seq<String>) -> u8 {
    if tokens.len() > 2 {
        match spelled_number(tokens[2]@) {
            Some(n) => if n <= u8::MAX {
                n as u8
            } else {
                DEFAULT_MAX_DEPTH
            },
            None => DEFAULT_MAX_DEPTH,
        }
    } else {
        DEFAULT_MAX_DEPTH
    }
}

/// The time for a move by the simple rule: a tenth of the clock and half
/// the increment.
pub open spec fn simple_move_time(remaining: u64, increment: u64) -> u64 {
    (remaining / 10 + increment / 2) as u64
}

/// The limits that a `go` command sets. `go infinite` searches to the
/// default depth without a limit of time, `go depth n` to depth `n` without
/// one; any other form searches to the default depth for the simple move
/// time of the side to move, by the clocks and increments named.
pub open spec fn go_limits(tokens: Seq<String>, white_to_move: bool) -> GoLimits {
    if tokens.len() > 1 && tokens[1]@ == "infinite"@ {
        GoLimits { max_depth: DEFAULT_MAX_DEPTH, time: 0 }
    } else if tokens.len() > 1 && tokens[1]@ == "depth"@ {
        GoLimits { max_depth: depth_argument(tokens), time: 0 }
    } else {
        let n = tokens.len() as int;
        GoLimits {
            max_depth: DEFAULT_MAX_DEPTH,
            time: if white_to_move {
                simple_move_time(
                    clock_argument(tokens, "wtime"@, n, DEFAULT_CLOCK),
                    clock_argument(tokens, "winc"@, n, DEFAULT_INCREMENT),
                )
            } else {
                simple_move_time(
                    clock_argument(tokens, "btime"@, n, DEFAULT_CLOCK),
                    clock_argument(tokens, "binc"@, n, DEFAULT_INCREMENT),
                )
            },
        }
    }
}

/// The distance to the mate that a mate score announces, negative for a
/// mate against White: half the number of half-moves that the mate lies
/// from the root, rounded down.
pub open spec fn mate_distance(score: i32) -> int {
    let magnitude = if score >= 0 {
        score as int
    } else {
        -(score as int)
    };
    let plies = div_toward_zero(MATE_SCORE - magnitude, MATE_PLY_PENALTY as int);
    let moves = div_toward_zero(plies, 2);
    if score >= 0 {
        moves
    } else {
        -moves
    }
}

/// A score as the protocol writes it: in centipawns, or as a distance to mate.
pub open spec fn score_chars(score: i32) -> Seq<char> {
    if is_mate_value(score as int) {
        "mate "@ + signed_decimal(mate_distance(score))
    } else {
        "cp "@ + signed_decimal(score as int)
    }
}

/// Nodes per second: whole nodes per millisecond, by a thousand; 0 before
/// the first millisecond has passed. Capped at the largest `u64`.
pub open spec fn speed(nodes: u64, elapsed_ms: u64) -> u64 {
    if elapsed_ms == 0 {
        0
    } else if (nodes / elapsed_ms) * 1000 > u64::MAX {
        u64::MAX
    } else {
        ((nodes / elapsed_ms) * 1000) as u64
    }
}

/// The line that reports a completed depth.
pub open spec fn info_chars(
    depth: u8,
    score: i32,
    nodes: u64,
    elapsed_ms: u64,
    best_move: Seq<char>,
    pv: Seq<char>,
) -> Seq<char> {
    "info depth "@ + decimal(depth as nat) + " score "@ + score_chars(score) + " nodes "@ + decimal(
        nodes as nat,
    ) + " nps "@ + decimal(speed(nodes, elapsed_ms) as nat) + " time "@ + decimal(elapsed_ms as nat)
        + " bestmove "@ + best_move + " pv "@ + pv
}

/// A line of moves as the protocol writes it from index `from` on: each
/// move named as it is played, with a blank between two moves. The line
/// ends before the first move that is not legal where it stands.
pub open spec fn line_chars(record: Seq<u16>, line: Seq<Move>, from: int) -> Seq<char>
    decreases line.len() - from,
{
    if from < 0 || from >= line.len() || !record_moves(record).contains(line[from]) {
        Seq::empty()
    } else {
        let rest = line_chars(record_after(record, line[from]), line, from + 1);
        record_uci_text(record, line[from]) + (if rest.len() > 0 {
            " "@ + rest
        } else {
            rest
        })
    }
}

/// Reads the limits that a `go` command sets.
pub fn parse_go(tokens: &Vec<String>, white_to_move: bool) -> (limits: GoLimits)
    ensures
        limits == go_limits(tokens@, white_to_move),
{
    if tokens.len() > 1 && same_text(tokens[1].as_str(), "infinite") {
        return GoLimits { max_depth: DEFAULT_MAX_DEPTH, time: 0 };
    }
    if tokens.len() > 1 && same_text(tokens[1].as_str(), "depth") {
        let mut max_depth = DEFAULT_MAX_DEPTH;
        if tokens.len() > 2 {
            if let Some(n) = parse_number(tokens[2].as_str()) {
                if n <= 255 {
                    max_depth = n as u8;
                }
            }
        }
        return GoLimits { max_depth, time: 0 };
    }
    let clocks = read_clocks(tokens);
    let time = if white_to_move {
        clocks.white_time / 10 + clocks.white_inc / 2
    } else {
        clocks.black_time / 10 + clocks.black_inc / 2
    };
    GoLimits { max_depth: DEFAULT_MAX_DEPTH, time }
}

/// The clocks and increments that a `go` command names, in milliseconds.
#[derive(Clone, Copy, Debug, PartialEq, Eq, Structural)]
pub struct Clocks {
    pub white_time: u64,
    pub black_time: u64,
    pub white_inc: u64,
    pub black_inc: u64,
}

/// The clocks and increments that the words of a command name, each the
/// default where the command names none.
pub open spec fn named_clocks(tokens: Seq<String>) -> Clocks {
    let n = tokens.len() as int;
    Clocks {
        white_time: clock_argument(tokens, "wtime"@, n, DEFAULT_CLOCK),
        black_time: clock_argument(tokens, "btime"@, n, DEFAULT_CLOCK),
        white_inc: clock_argument(tokens, "winc"@, n, DEFAULT_INCREMENT),
        black_inc: clock_argument(tokens, "binc"@, n, DEFAULT_INCREMENT),
    }
}

/// Reads the clocks and increments that a `go` command names.
pub fn read_clocks(tokens: &Vec<String>) -> (clocks: Clocks)
    ensures
        clocks == named_clocks(tokens@),
{
    let mut white_time: u64 = DEFAULT_CLOCK;
    let mut black_time: u64 = DEFAULT_CLOCK;
    let mut white_inc: u64 = DEFAULT_INCREMENT;
    let mut black_inc: u64 = DEFAULT_INCREMENT;
    let mut i: usize = 1;
    while i < tokens.len()
        invariant
            1 <= i,
            i <= tokens@.len() || i == 1,
            white_time == clock_argument(tokens@, "wtime"@, i as int, DEFAULT_CLOCK),
            black_time == clock_argument(tokens@, "btime"@, i as int, DEFAULT_CLOCK),
            white_inc == clock_argument(tokens@, "winc"@, i as int, DEFAULT_INCREMENT),
            black_inc == clock_argument(tokens@, "binc"@, i as int, DEFAULT_INCREMENT),
        decreases tokens@.len() - i,
    {
        if i + 1 < tokens.len() {
            let word = tokens[i].as_str();
            let number = parse_number(tokens[i + 1].as_str());
            if let Some(n) = number {
                if same_text(word, "wtime") {
                    white_time = n;
                }
                if same_text(word, "btime") {
                    black_time = n;
                }
                if same_text(word, "winc") {
                    white_inc = n;
                }
                if same_text(word, "binc") {
                    black_inc = n;
                }
            }
        }
        i = i + 1;
    }
    Clocks { white_time, black_time, white_inc, black_inc }
}

/// Writes a score as the protocol does.
pub fn score_text(score: i32) -> (text: String)
    ensures
        text@ == score_chars(score),
{
    if is_mate_score(score) {
        let magnitude: i64 = if score >= 0 {
            score as i64
        } else {
            -(score as i64)
        };
        let plies: i64 = (MATE_SCORE as i64 - magnitude) / (MATE_PLY_PENALTY as i64);
        let moves: i64 = plies / 2;
        let mut text = String::from_str("mate ");
        push_signed(
            &mut text,
            if score >= 0 {
                moves
            } else {
                -moves
            },
        );
        text
    } else {
        let mut text = String::from_str("cp ");
        push_signed(&mut text, score as i64);
        text
    }
}

/// Nodes per second from a node count and the milliseconds passed.
pub fn nodes_per_second(nodes: u64, elapsed_ms: u64) -> (nps: u64)
    ensures
        nps == speed(nodes, elapsed_ms),
{
    if elapsed_ms == 0 {
        0
    } else {
        let per_ms = nodes / elapsed_ms;
        if per_ms > u64::MAX / 1000 {
            u64::MAX
        } else {
            per_ms * 1000
        }
    }
}

/// Writes the line that reports a completed depth.
pub fn info_line(depth: u8, score: i32, nodes: u64, elapsed_ms: u64, best_move: &str, pv: &str) -> (line:
    String)
    ensures
        line@ == info_chars(depth, score, nodes, elapsed_ms, best_move@, pv@),
{
    let mut line = String::from_str("info depth ");
    push_decimal(&mut line, depth as u64);
    line.append(" score ");
    let score_part = score_text(score);
    line.append(score_part.as_str());
    line.append(" nodes ");
    push_decimal(&mut line, nodes);
    line.append(" nps ");
    push_decimal(&mut line, nodes_per_second(nodes, elapsed_ms));
    line.append(" time ");
    push_decimal(&mut line, elapsed_ms);
    line.append(" bestmove ");
    line.append(best_move);
    line.append(" pv ");
    line.append(pv);
    line
}

/// Writes a line of moves as the protocol does, each move named on the
/// board on which it is played.
pub fn line_text(board: &Board, line: &Vec<Move>) -> (text: String)
    ensures
        text@ == line_chars(board_record(*board), line@, 0),
{
    line_text_from(board, line, 0)
}

fn line_text_from(board: &Board, line: &Vec<Move>, from: usize) -> (text: String)
    ensures
        text@ == line_chars(board_record(*board), line@, from as int),
    decreases line@.len() - from,
{
    if from >= line.len() {
        return String::new();
    }
    let mv = line[from];
    let legal = generate_moves(board);
    if !contains_move(&legal, mv) {
        return String::new();
    }
    assert(mv.from < 64 && mv.to < 64) by {
        let k = choose|k: int| 0 <= k < legal@.len() && legal@[k] == mv;
        assert(legal@[k].from < 64);
    }
    let mut text = display_uci_move(board, mv);
    let next = play(board, mv);
    let rest = line_text_from(&next, line, from + 1);
    if rest.as_str().unicode_len() > 0 {
        text.append(" ");
        text.append(rest.as_str());
    }
    assert(text@ =~= line_chars(board_record(*board), line@, from as int));
    text
}

/// How many times the time that the last depth took must fit into what is
/// left of the budget for another depth to be started.
pub const SAFETY_FACTOR: u64 = 5;

/// What is left of a budget of time when `elapsed` milliseconds have passed.
pub open spec fn time_left(time: u64, elapsed: u64) -> int {
    if elapsed >= time {
        0
    } else {
        time - elapsed
    }
}

/// The state of an iterative deepening search: its limits, how many depths
/// it has completed, and the best move, score and line of the last depth
/// that found a move.
pub struct Deepening {
    /// The deepest depth to search.
    pub max_depth: u8,
    /// The time budget in milliseconds; 0 for none.
    pub time: u64,
    /// The number of depths completed.
    pub completed: u8,
    pub best_move: Option<Move>,
    pub best_score: Option<i32>,
    pub best_pv: Vec<Move>,
    /// Nodes visited by the completed depths.
    pub node_count: u64,
}

/// The killer moves of a search that has remembered none.
pub open spec fn no_killers() -> Seq<Seq<Move>> {
    Seq::new(KILLER_PLIES as nat, |i: int| Seq::<Move>::empty())
}

impl Deepening {
    /// Whether another depth is to be started when the last depth took
    /// `last_depth` milliseconds and `elapsed` milliseconds have passed in
    /// all: a depth is left, and five times the time of the last depth
    /// does not exceed what is left of the budget, if there is one.
    pub open spec fn wants_depth(&self, last_depth: u64, elapsed: u64) -> bool {
        self.completed < self.max_depth && !(self.time > 0 && last_depth * SAFETY_FACTOR
            > time_left(self.time, elapsed))
    }

    /// What the next depth comes to if it is not stopped: the search of the
    /// position from the root with the widest window, no killer moves, and
    /// the table as it stands.
    pub open spec fn next_result(
        &self,
        record: Seq<u16>,
        history: Seq<u64>,
        table: &TranspositionTable,
    ) -> SearchResult {
        search(
            record,
            history,
            self.completed + 1,
            i32::MIN,
            i32::MAX,
            0,
            SearchState { table: table.slots(), killers: no_killers(), nodes: self.node_count },
        )
    }

    /// A search that has not begun: no depth completed, no move found.
    pub fn new(max_depth: u8, time: u64) -> (fresh: Self)
        ensures
            fresh.max_depth == max_depth,
            fresh.time == time,
            fresh.completed == 0,
            fresh.best_move is None,
            fresh.best_score is None,
            fresh.best_pv@.len() == 0,
            fresh.node_count == 0,
    {
        Deepening {
            max_depth,
            time,
            completed: 0,
            best_move: None,
            best_score: None,
            best_pv: Vec::new(),
            node_count: 0,
        }
    }

    /// Tells whether another depth is to be started.
    pub fn should_deepen(&self, last_depth: u64, elapsed: u64) -> (go_on: bool)
        ensures
            go_on == self.wants_depth(last_depth, elapsed),
    {
        let left: u64 = if elapsed >= self.time {
            0
        } else {
            self.time - elapsed
        };
        self.completed < self.max_depth && !(self.time > 0 && (last_depth > u64::MAX / SAFETY_FACTOR
            || last_depth * SAFETY_FACTOR > left))
    }

    /// Searches one depth further, if the flag is raised and another depth
    /// is to be started when the last depth took `last_depth` milliseconds
    /// and `elapsed` milliseconds have passed in all. Tells
    /// whether a depth was completed.
    ///
    /// A depth that is stopped on the way is discarded whole: the state is
    /// left exactly as it was. A completed depth is counted, with its
    /// nodes, and its move, score and line replace the best so far if it
    /// found a move.
    pub fn deepen(
        &mut self,
        board: &Board,
        transposition_table: &mut TranspositionTable,
        history: &Vec<u64>,
        is_playing: &AtomicBool,
        last_depth: u64,
        elapsed: u64,
    ) -> (completed: bool)
        requires
            old(transposition_table).wf(),
        ensures
            final(transposition_table).wf(),
            kept_or_deepened(old(transposition_table).slots(), final(transposition_table).slots()),
            !old(self).wants_depth(last_depth, elapsed) ==> !completed,
            !completed ==> *final(self) == *old(self),
            completed ==> {
                let expected = old(self).next_result(
                    board_record(*board),
                    history@,
                    old(transposition_table),
                );
                &&& final(self).max_depth == old(self).max_depth
                &&& final(self).time == old(self).time
                &&& final(self).completed == old(self).completed + 1
                &&& final(self).node_count == expected.state.nodes
                &&& final(transposition_table).slots() == expected.state.table
                &&& match expected.best_move {
                    Some(mv) => {
                        &&& final(self).best_move == Some(mv)
                        &&& final(self).best_score == Some(expected.score)
                        &&& final(self).best_pv@ == expected.pv
                    },
                    None => {
                        &&& final(self).best_move == old(self).best_move
                        &&& final(self).best_score == old(self).best_score
                        &&& final(self).best_pv == old(self).best_pv
                    },
                }
            },
    {
        let playing = still_playing(is_playing);
        self.deepen_after_reading(
            board,
            transposition_table,
            history,
            playing,
            is_playing,
            last_depth,
            elapsed,
        )
    }

    /// Whether this is the search `before` after one more depth that came to
    /// `expected`: the depth is counted, with its nodes, and its move,
    /// score and line have replaced the best so far if it found a move.
    pub open spec fn follows(&self, before: Deepening, expected: SearchResult) -> bool {
        &&& self.max_depth == before.max_depth
        &&& self.time == before.time
        &&& self.completed == before.completed + 1
        &&& self.node_count == expected.state.nodes
        &&& match expected.best_move {
            Some(mv) => {
                &&& self.best_move == Some(mv)
                &&& self.best_score == Some(expected.score)
                &&& self.best_pv@ == expected.pv
            },
            None => {
                &&& self.best_move == before.best_move
                &&& self.best_score == before.best_score
                &&& self.best_pv == before.best_pv
            },
        }
    }

    /// Searches one depth further once the flag has been read as `playing`
    /// at the start of the depth. With the flag lowered, or with no depth
    /// left or the time too short, nothing is searched and nothing changes,
    /// the table included. Else the next depth is searched, which reads the
    /// flag anew at every node, and what it comes to is adopted or
    /// discarded as `adopt` says.
    pub fn deepen_after_reading(
        &mut self,
        board: &Board,
        transposition_table: &mut TranspositionTable,
        history: &Vec<u64>,
        playing: bool,
        is_playing: &AtomicBool,
        last_depth: u64,
        elapsed: u64,
    ) -> (completed: bool)
        requires
            old(transposition_table).wf(),
        ensures
            final(transposition_table).wf(),
            kept_or_deepened(old(transposition_table).slots(), final(transposition_table).slots()),
            !(playing && old(self).wants_depth(last_depth, elapsed)) ==> !completed,
            !(playing && old(self).wants_depth(last_depth, elapsed)) ==> final(transposition_table).slots()
                == old(transposition_table).slots(),
            !completed ==> *final(self) == *old(self),
            completed ==> final(self).follows(
                *old(self),
                old(self).next_result(board_record(*board), history@, old(transposition_table)),
            ),
            completed ==> final(transposition_table).slots() == old(self).next_result(
                board_record(*board),
                history@,
                old(transposition_table),
            ).state.table,
    {
        if !playing || !self.should_deepen(last_depth, elapsed) {
            return false;
        }
        let mut killer_moves: HashMap<u8, Vec<Move>> = HashMap::new();
        assert(killer_lines(killer_moves@) =~= no_killers());
        let mut node_count = self.node_count;
        let outcome = mini_max(
            board,
            transposition_table,
            copy_list(history),
            self.completed + 1,
            i32::MIN,
            i32::MAX,
            0,
            is_playing,
            &mut node_count,
            &mut killer_moves,
        );
        self.adopt(outcome, node_count)
    }

    /// Takes in what the search of the next depth came to: its score, its
    /// best move, whether it was stopped, and its line, with the node count
    /// after it. Tells whether the depth counts as completed.
    ///
    /// A stopped depth is discarded whole: the state is left exactly as it
    /// was. Any other is counted, with its nodes, and its move, score and
    /// line replace the best so far if it found a move.
    pub fn adopt(&mut self, outcome: (i32, Option<Move>, bool, Vec<Move>), node_count: u64) -> (completed:
        bool)
        requires
            old(self).completed < old(self).max_depth,
        ensures
            completed == !outcome.2,
            outcome.2 ==> *final(self) == *old(self),
            !outcome.2 ==> {
                &&& final(self).max_depth == old(self).max_depth
                &&& final(self).time == old(self).time
                &&& final(self).completed == old(self).completed + 1
                &&& final(self).node_count == node_count
                &&& match outcome.1 {
                    Some(mv) => {
                        &&& final(self).best_move == Some(mv)
                        &&& final(self).best_score == Some(outcome.0)
                        &&& final(self).best_pv@ == outcome.3@
                    },
                    None => {
                        &&& final(self).best_move == old(self).best_move
                        &&& final(self).best_score == old(self).best_score
                        &&& final(self).best_pv == old(self).best_pv
                    },
                }
            },
    {
        let (score, mv, early_stop, pv) = outcome;
        if early_stop {
            return false;
        }
        if let Some(mv) = mv {
            self.best_move = Some(mv);
            self.best_score = Some(score);
            self.best_pv = pv;
        }
        self.node_count = node_count;
        self.completed = self.completed + 1;
        true
    }
}

/// What an iterative deepening search has found and left behind.
pub struct Deepened {
    pub best_move: Option<Move>,
    pub best_score: Option<i32>,
    pub best_pv: Seq<Move>,
    pub table: Seq<Option<EntryView>>,
    pub nodes: u64,
}

/// What an iterative deepening search has come to after `depths` completed
/// depths, begun with the given table: nothing found before the first, else
/// the search to that depth from the root with the widest window and no
/// killer moves, on the table and the node count left by the depths
/// before. A depth that finds no move leaves the best so far in place.
pub open spec fn deepened(record: Seq<u16>, history: Seq<u64>, table: Seq<Option<EntryView>>, depths: int) -> Deepened
    decreases depths,
{
    if depths <= 0 {
        Deepened { best_move: None, best_score: None, best_pv: Seq::empty(), table, nodes: 0 }
    } else {
        let before = deepened(record, history, table, depths - 1);
        let found = search(
            record,
            history,
            depths,
            i32::MIN,
            i32::MAX,
            0,
            SearchState { table: before.table, killers: no_killers(), nodes: before.nodes },
        );
        match found.best_move {
            Some(mv) => Deepened {
                best_move: Some(mv),
                best_score: Some(found.score),
                best_pv: found.pv,
                table: found.state.table,
                nodes: found.state.nodes,
            },
            None => Deepened {
                best_move: before.best_move,
                best_score: before.best_score,
                best_pv: before.best_pv,
                table: found.state.table,
                nodes: found.state.nodes,
            },
        }
    }
}

/// Whether a search holds the move, score and line that were found.
pub open spec fn found(search: Deepening, expected: Deepened) -> bool {
    &&& search.best_move == expected.best_move
    &&& search.best_score == expected.best_score
    &&& search.best_pv@ == expected.best_pv
}

/// A move as the protocol names it on a board. A move that leaves the
/// board, as a table may hold it from elsewhere, is written in plain
/// coordinates.
pub open spec fn uci_name(record: Seq<u16>, mv: Move) -> Seq<char> {
    if mv.from < 64 && mv.to < 64 {
        record_uci_text(record, mv)
    } else {
        move_chars(mv)
    }
}

/// Writes a move as the protocol names it on a board.
pub fn uci_move_text(board: &Board, mv: Move) -> (text: String)
    ensures
        text@ == uci_name(board_record(*board), mv),
{
    if mv.from < 64 && mv.to < 64 {
        display_uci_move(board, mv)
    } else {
        let mut text = String::new();
        push_move(&mut text, mv);
        assert(text@ =~= move_chars(mv));
        text
    }
}

/// The line that names the move to play.
pub open spec fn bestmove_chars(record: Seq<u16>, mv: Move) -> Seq<char> {
    "bestmove "@ + uci_name(record, mv)
}

/// Writes the line that names the move to play.
pub fn bestmove_line(board: &Board, mv: Move) -> (line: String)
    ensures
        line@ == bestmove_chars(board_record(*board), mv),
{
    let mut line = String::from_str("bestmove ");
    let name = uci_move_text(board, mv);
    line.append(name.as_str());
    line
}

/// The lines that report the first `depths` depths of a search, of which
/// depth `d` was completed when `times[d - 1]` milliseconds had passed:
/// one line for every depth after which a move is known.
pub open spec fn progress_lines(
    record: Seq<u16>,
    history: Seq<u64>,
    table: Seq<Option<EntryView>>,
    depths: int,
    times: Seq<u64>,
) -> Seq<Seq<char>>
    decreases depths,
{
    if depths <= 0 {
        Seq::empty()
    } else {
        let before = progress_lines(record, history, table, depths - 1, times);
        let now = deepened(record, history, table, depths);
        if now.best_move is Some && now.best_score is Some {
            before.push(
                info_chars(
                    depths as u8,
                    now.best_score->0,
                    now.nodes,
                    times[depths - 1],
                    uci_name(record, now.best_move->0),
                    line_chars(record, now.best_pv, 0),
                ),
            )
        } else {
            before
        }
    }
}

/// All that a `go` command reports: the lines for the depths completed,
/// and the line that names the move to play, if one was found.
pub open spec fn go_lines(
    record: Seq<u16>,
    history: Seq<u64>,
    table: Seq<Option<EntryView>>,
    depths: int,
    times: Seq<u64>,
) -> Seq<Seq<char>> {
    progress_lines(record, history, table, depths, times) + (
    match deepened(record, history, table, depths).best_move {
        Some(mv) => seq![bestmove_chars(record, mv)],
        None => Seq::empty(),
    })
}

/// The lines for the first depths do not depend on the times of later ones.
pub proof fn lemma_progress_lines_prefix(
    record: Seq<u16>,
    history: Seq<u64>,
    table: Seq<Option<EntryView>>,
    depths: int,
    times: Seq<u64>,
    longer: Seq<u64>,
)
    requires
        depths <= times.len() <= longer.len(),
        forall|i: int| 0 <= i < times.len() ==> times[i] == longer[i],
    ensures
        progress_lines(record, history, table, depths, times) == progress_lines(
            record,
            history,
            table,
            depths,
            longer,
        ),
    decreases depths,
{
    if depths > 0 {
        lemma_progress_lines_prefix(record, history, table, depths - 1, times, longer);
    }
}

/// Carries out a `go` command on the position on the board: reads the
/// limits, raises the flag, searches depth after depth, and hands back the
/// search as it stands at the end, with the best move, its score and its
/// line. To `report` it adds a line for every completed depth after which
/// a move is known, and last the line that names the move to play, if one
/// was found.
///
/// The flag is raised here at the start of every search; whoever wants the
/// search to end lowers it, at a stop or when the time is up. When the
/// search ends and how long each depth takes is up to the clock and the
/// flag; however many depths are completed, and whatever the times, what
/// is handed back is what `deepened` lays down for that number of depths,
/// and what is reported is what `go_lines` lays down for it and those
/// times.
pub fn do_uci_command_go(
    uci_data: &mut UciData,
    tokens: &Vec<String>,
    transposition_table: &mut TranspositionTable,
    report: &mut Vec<String>,
) -> (search: Deepening)
    requires
        old(transposition_table).wf(),
    ensures
        final(transposition_table).wf(),
        kept_or_deepened(old(transposition_table).slots(), final(transposition_table).slots()),
        *final(uci_data) == *old(uci_data),
        search.max_depth == go_limits(
            tokens@,
            side_of(board_record(old(uci_data).board)) == Color::White,
        ).max_depth,
        search.time == go_limits(
            tokens@,
            side_of(board_record(old(uci_data).board)) == Color::White,
        ).time,
        search.completed <= search.max_depth,
        found(
            search,
            deepened(
                board_record(old(uci_data).board),
                old(uci_data).current_move_history@,
                old(transposition_table).slots(),
                search.completed as int,
            ),
        ),
        exists|times: Seq<u64>|
            times.len() == search.completed && texts(final(report)@) == texts(old(report)@)
                + #[trigger] go_lines(
                board_record(old(uci_data).board),
                old(uci_data).current_move_history@,
                old(transposition_table).slots(),
                search.completed as int,
                times,
            ),
{
    let limits = parse_go(tokens, side_to_move(&uci_data.board) == Color::White);
    start_playing(&uci_data.is_playing);
    let start = now();
    let mut last_depth: u64 = 0;
    let mut last_time: u64 = 0;
    let mut search = Deepening::new(limits.max_depth, limits.time);
    assert(search.best_pv@ =~= Seq::<Move>::empty());
    let ghost record = board_record(uci_data.board);
    let ghost history = uci_data.current_move_history@;
    let ghost table = transposition_table.slots();
    let ghost earlier = texts(old(report)@);
    let ghost mut times: Seq<u64> = Seq::empty();
    assert(texts(report@) =~= earlier + progress_lines(record, history, table, 0, times));
    loop
        invariant_except_break
            transposition_table.slots() == deepened(record, history, table, search.completed as int).table,
            search.node_count == deepened(record, history, table, search.completed as int).nodes,
        invariant
            transposition_table.wf(),
            kept_or_deepened(table, transposition_table.slots()),
            record == board_record(uci_data.board),
            history == uci_data.current_move_history@,
            *uci_data == *old(uci_data),
            search.max_depth == limits.max_depth,
            search.time == limits.time,
            search.completed <= search.max_depth,
            found(search, deepened(record, history, table, search.completed as int)),
            times.len() == search.completed,
            texts(report@) == earlier + progress_lines(
                record,
                history,
                table,
                search.completed as int,
                times,
            ),
        ensures
            transposition_table.wf(),
            kept_or_deepened(table, transposition_table.slots()),
            *uci_data == *old(uci_data),
            search.max_depth == limits.max_depth,
            search.time == limits.time,
            search.completed <= limits.max_depth,
            found(search, deepened(record, history, table, search.completed as int)),
            times.len() == search.completed,
            texts(report@) == earlier + progress_lines(
                record,
                history,
                table,
                search.completed as int,
                times,
            ),
        decreases search.max_depth - search.completed,
    {
        let ghost done = search.completed;
        if !search.deepen(
            &uci_data.board,
            transposition_table,
            &uci_data.current_move_history,
            &uci_data.is_playing,
            last_depth,
            last_time,
        ) {
            break;
        }
        assert(search.completed == done + 1);
        let elapsed = elapsed_ms(&start);
        let passed: u64 = if elapsed > u64::MAX as u128 {
            u64::MAX
        } else {
            elapsed as u64
        };
        last_depth = if passed >= last_time {
            passed - last_time
        } else {
            0
        };
        last_time = passed;
        let ghost reported = texts(report@);
        proof {
            lemma_progress_lines_prefix(record, history, table, done as int, times, times.push(last_time));
            times = times.push(last_time);
        }
        if let Some(mv) = search.best_move {
            if let Some(score) = search.best_score {
                let name = uci_move_text(&uci_data.board, mv);
                let line = line_text(&uci_data.board, &search.best_pv);
                report.push(
                    info_line(
                        search.completed,
                        score,
                        search.node_count,
                        last_time,
                        name.as_str(),
                        line.as_str(),
                    ),
                );
                assert(texts(report@) =~= reported.push(report@.last()@));
            }
        }
        assert(texts(report@) =~= earlier + progress_lines(
            record,
            history,
            table,
            search.completed as int,
            times,
        ));
    }
    let ghost reported = texts(report@);
    if let Some(mv) = search.best_move {
        report.push(bestmove_line(&uci_data.board, mv));
        assert(texts(report@) =~= reported.push(bestmove_chars(record, mv)));
    }
    assert(texts(report@) =~= earlier + go_lines(
        record,
        history,
        table,
        search.completed as int,
        times,
    ));
    search
}

} // verus!
