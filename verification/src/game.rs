//! A game with its own search: alpha-beta with a hash map for a table and
//! quiescence at the horizon, scored by material and mate alone.

use vstd::prelude::*;
use vstd::string::StringExecFns;
use cozy_chess::Board;
use std::collections::HashMap;
use std::sync::atomic::AtomicBool;
use std::sync::Arc;
use crate::board::{
    board_record,
    generate_moves,
    hash,
    play,
    record_after,
    record_hash,
    record_moves,
    side_of,
    side_to_move,
    start_record,
    startpos,
    status,
    status_of,
};
use crate::clock::{elapsed_ms, now};
use crate::eval::{eval, plain_score};
use crate::eval_mate_in::MAX_DISTANCE;
use crate::search::quiescence::{bump, capture_moves, generate_captures, max_score, min_score};
use crate::search::stop::{start_playing, still_playing};
use crate::text::{
    decimal,
    move_chars,
    push_decimal,
    push_move,
    push_signed,
    signed_decimal,
    texts,
};
use crate::types::{Color, GameStatus, Move};

verus! {

/// What the table keeps of a searched position.
#[derive(Clone, Copy, Debug, PartialEq, Eq, Structural)]
pub struct TTStore {
    pub depth: u8,
    pub score: i32,
    pub chess_move: Move,
}

/// A game: the board, the limits of the search, and what the search keeps.
pub struct Game {
    pub max_depth: u8,
    pub board: Board,
    pub move_time: u64,
    pub move_number: u64,
    pub node_count: u64,
    pub tt: HashMap<u64, TTStore>,
    pub playing: Arc<AtomicBool>,
}

/// What the search of a game carries from node to node.
pub struct GameState {
    pub table: Map<u64, TTStore>,
    pub nodes: u64,
}

/// What the search of one node comes to.
pub struct GameResult {
    pub score: i32,
    pub mv: Option<Move>,
    pub state: GameState,
}

/// The quiescence value of a position and the node count after the search:
/// as `search::quiescence::quiesce`, with the score by material and mate for
/// the static score, and without a flag to stop it.
pub open spec fn game_quiesce(record: Seq<u16>, alpha: i32, beta: i32, ply: int, nodes: u64) -> (i32, u64)
    decreases MAX_DISTANCE - ply, 1int, 0int,
{
    let stand_pat = plain_score(record, ply) as i32;
    match side_of(record) {
        Color::White => if stand_pat >= beta {
            (beta, bump(nodes))
        } else {
            game_quiesce_captures(
                record,
                capture_moves(record),
                0,
                max_score(alpha, stand_pat),
                beta,
                ply,
                bump(nodes),
            )
        },
        Color::Black => if stand_pat <= alpha {
            (alpha, bump(nodes))
        } else {
            game_quiesce_captures(
                record,
                capture_moves(record),
                0,
                alpha,
                min_score(beta, stand_pat),
                ply,
                bump(nodes),
            )
        },
    }
}

/// The quiescence value once the captures before index `from` have
/// narrowed the window. At `MAX_DISTANCE` no capture is tried.
pub open spec fn game_quiesce_captures(
    record: Seq<u16>,
    captures: Seq<Move>,
    from: int,
    alpha: i32,
    beta: i32,
    ply: int,
    nodes: u64,
) -> (i32, u64)
    decreases MAX_DISTANCE - ply, 0int, captures.len() - from,
{
    if from >= captures.len() || ply >= MAX_DISTANCE || from < 0 || ply < 0 {
        match side_of(record) {
            Color::White => (alpha, nodes),
            Color::Black => (beta, nodes),
        }
    } else {
        let reply = game_quiesce(record_after(record, captures[from]), alpha, beta, ply + 1, nodes);
        match side_of(record) {
            Color::White => {
                let raised = max_score(alpha, reply.0);
                if raised >= beta {
                    (raised, reply.1)
                } else {
                    game_quiesce_captures(record, captures, from + 1, raised, beta, ply, reply.1)
                }
            },
            Color::Black => {
                let lowered = min_score(beta, reply.0);
                if lowered <= alpha {
                    (lowered, reply.1)
                } else {
                    game_quiesce_captures(record, captures, from + 1, alpha, lowered, ply, reply.1)
                }
            },
        }
    }
}

/// The result of a node whose moves are done: the best found, kept in the
/// table under the node's hash if there is a best move.
pub open spec fn game_finish(record: Seq<u16>, depth: int, score: i32, mv: Option<Move>, state: GameState) -> GameResult {
    GameResult {
        score,
        mv,
        state: match mv {
            Some(best) => GameState {
                table: state.table.insert(
                    record_hash(record),
                    TTStore { depth: depth as u8, score, chess_move: best },
                ),
                nodes: state.nodes,
            },
            None => state,
        },
    }
}

/// The search of one node of a game. A position that the table holds from
/// a search at least as deep is answered from the table. Else the node is
/// counted; a finished game scores by material and mate; at depth 0, and at
/// `MAX_DISTANCE` from the root, quiescence search decides; else the legal
/// moves are searched in the order in which they are generated.
pub open spec fn game_search(
    record: Seq<u16>,
    depth: int,
    alpha: i32,
    beta: i32,
    ply: int,
    state: GameState,
) -> GameResult
    decreases depth, 1int, 0int,
{
    let key = record_hash(record);
    if state.table.contains_key(key) && state.table[key].depth >= depth {
        GameResult { score: state.table[key].score, mv: Some(state.table[key].chess_move), state }
    } else if status_of(record) != GameStatus::Ongoing {
        GameResult {
            score: plain_score(record, ply) as i32,
            mv: None,
            state: GameState { table: state.table, nodes: bump(state.nodes) },
        }
    } else if depth <= 0 || ply >= MAX_DISTANCE {
        let quiet = game_quiesce(record, alpha, beta, ply, bump(state.nodes));
        GameResult { score: quiet.0, mv: None, state: GameState { table: state.table, nodes: quiet.1 } }
    } else {
        game_moves(
            record,
            depth,
            ply,
            record_moves(record),
            0,
            alpha,
            beta,
            match side_of(record) {
                Color::White => i32::MIN,
                Color::Black => i32::MAX,
            },
            None,
            GameState { table: state.table, nodes: bump(state.nodes) },
        )
    }
}

/// The search of a node's moves from index `from` on.
pub open spec fn game_moves(
    record: Seq<u16>,
    depth: int,
    ply: int,
    moves: Seq<Move>,
    from: int,
    alpha: i32,
    beta: i32,
    best_score: i32,
    best_move: Option<Move>,
    state: GameState,
) -> GameResult
    decreases depth, 0int, moves.len() - from,
{
    if from < 0 || from >= moves.len() || depth <= 0 {
        game_finish(record, depth, best_score, best_move, state)
    } else {
        let mv = moves[from];
        let reply = game_search(record_after(record, mv), depth - 1, alpha, beta, ply + 1, state);
        match side_of(record) {
            Color::White => {
                let improved = reply.score > best_score;
                let score = if improved {
                    reply.score
                } else {
                    best_score
                };
                let best = if improved {
                    Some(mv)
                } else {
                    best_move
                };
                if score >= beta {
                    game_finish(record, depth, score, best, reply.state)
                } else {
                    game_moves(
                        record,
                        depth,
                        ply,
                        moves,
                        from + 1,
                        max_score(alpha, score),
                        beta,
                        score,
                        best,
                        reply.state,
                    )
                }
            },
            Color::Black => {
                let improved = reply.score < best_score;
                let score = if improved {
                    reply.score
                } else {
                    best_score
                };
                let best = if improved {
                    Some(mv)
                } else {
                    best_move
                };
                if score <= alpha {
                    game_finish(record, depth, score, best, reply.state)
                } else {
                    game_moves(
                        record,
                        depth,
                        ply,
                        moves,
                        from + 1,
                        alpha,
                        min_score(beta, score),
                        score,
                        best,
                        reply.state,
                    )
                }
            },
        }
    }
}

/// What the search of a game has come to after `depths` completed depths,
/// begun with the table `table`: the best move so far, and the state.
pub open spec fn game_deepening(record: Seq<u16>, table: Map<u64, TTStore>, depths: int) -> (
    Option<Move>,
    GameState,
)
    decreases depths,
{
    if depths <= 0 {
        (None, GameState { table, nodes: 0 })
    } else {
        let before = game_deepening(record, table, depths - 1);
        let found = game_search(record, depths, i32::MIN, i32::MAX, 0, before.1);
        (
            match found.mv {
                Some(mv) => Some(mv),
                None => before.0,
            },
            found.state,
        )
    }
}

/// The lines that report the first `depths` depths of a game's search, of
/// which depth `d` was completed when `times[d - 1]` milliseconds had
/// passed: one line for every depth after which a move is known, with the
/// score that the depth found.
pub open spec fn game_lines(record: Seq<u16>, table: Map<u64, TTStore>, depths: int, times: Seq<u64>) -> Seq<
    Seq<char>,
>
    decreases depths,
{
    if depths <= 0 {
        Seq::empty()
    } else {
        let before = game_deepening(record, table, depths - 1);
        let found = game_search(record, depths, i32::MIN, i32::MAX, 0, before.1);
        let lines = game_lines(record, table, depths - 1, times);
        match game_deepening(record, table, depths).0 {
            Some(mv) => lines.push(
                game_info_chars(depths as u8, found.score, found.state.nodes, times[depths - 1], mv),
            ),
            None => lines,
        }
    }
}

/// The lines for the first depths do not depend on the times of later ones.
pub proof fn lemma_game_lines_prefix(
    record: Seq<u16>,
    table: Map<u64, TTStore>,
    depths: int,
    times: Seq<u64>,
    longer: Seq<u64>,
)
    requires
        depths <= times.len() <= longer.len(),
        forall|i: int| 0 <= i < times.len() ==> times[i] == longer[i],
    ensures
        game_lines(record, table, depths, times) == game_lines(record, table, depths, longer),
    decreases depths,
{
    if depths > 0 {
        lemma_game_lines_prefix(record, table, depths - 1, times, longer);
    }
}

/// Tells whether the search of a game starts another depth when
/// `completed` depths are done and the flag was read as `playing`: a depth
/// is left and the flag is raised.
pub fn plays_on(completed: u8, max_depth: u8, playing: bool) -> (go: bool)
    ensures
        go == (completed < max_depth && playing),
{
    completed < max_depth && playing
}

/// The line that reports a depth of a game's search.
pub open spec fn game_info_chars(depth: u8, score: i32, nodes: u64, elapsed: u64, best: Move) -> Seq<char> {
    "info depth "@ + decimal(depth as nat) + " score cp "@ + signed_decimal(score as int) + " nodes "@
        + decimal(nodes as nat) + " nps "@ + decimal(game_speed(nodes, elapsed) as nat) + " time "@
        + decimal(elapsed as nat) + " bestmove "@ + move_chars(best)
}

/// Nodes per second, capped at the largest `u64`; 0 before the first
/// millisecond has passed.
pub open spec fn game_speed(nodes: u64, elapsed: u64) -> u64 {
    if elapsed == 0 {
        0
    } else if nodes * 1000 / (elapsed as int) > u64::MAX {
        u64::MAX
    } else {
        (nodes * 1000 / (elapsed as int)) as u64
    }
}

/// Writes the line that reports a depth of a game's search.
pub fn game_info_line(depth: u8, score: i32, nodes: u64, elapsed: u64, best: Move) -> (line: String)
    ensures
        line@ == game_info_chars(depth, score, nodes, elapsed, best),
{
    let nps: u64 = if elapsed == 0 {
        0
    } else {
        let rate: u128 = nodes as u128 * 1000 / (elapsed as u128);
        if rate > u64::MAX as u128 {
            u64::MAX
        } else {
            rate as u64
        }
    };
    let mut line = String::from_str("info depth ");
    push_decimal(&mut line, depth as u64);
    line.append(" score cp ");
    push_signed(&mut line, score as i64);
    line.append(" nodes ");
    push_decimal(&mut line, nodes);
    line.append(" nps ");
    push_decimal(&mut line, nps);
    line.append(" time ");
    push_decimal(&mut line, elapsed);
    line.append(" bestmove ");
    push_move(&mut line, best);
    line
}

impl Game {
    /// The table of the game as a mathematical value.
    pub open spec fn table(&self) -> Map<u64, TTStore> {
        self.tt@
    }

    /// A game at the start position.
    pub fn new(max_depth: u8, move_time: u64) -> (game: Self)
        ensures
            game.max_depth == max_depth,
            game.move_time == move_time,
            game.move_number == 0,
            game.node_count == 0,
            board_record(game.board) == start_record(),
            game.table() == Map::<u64, TTStore>::empty(),
    {
        Game::new_from_board(startpos(), max_depth, move_time)
    }

    /// A game at a given position.
    pub fn new_from_board(board: Board, max_depth: u8, move_time: u64) -> (game: Self)
        ensures
            game.max_depth == max_depth,
            game.move_time == move_time,
            game.move_number == 0,
            game.node_count == 0,
            game.board == board,
            game.table() == Map::<u64, TTStore>::empty(),
    {
        let tt: HashMap<u64, TTStore> = HashMap::new();
        assert(tt@ =~= Map::<u64, TTStore>::empty());
        Game {
            max_depth,
            board,
            move_time,
            move_number: 0,
            node_count: 0,
            tt,
            playing: Arc::new(AtomicBool::new(false)),
        }
    }

    /// Quiescence search on a position of the game.
    pub fn quiescence(&mut self, board: &Board, alpha: i32, beta: i32, distance_from_root: u32) -> (score:
        i32)
        requires
            distance_from_root <= MAX_DISTANCE,
        ensures
            (score, final(self).node_count) == game_quiesce(
                board_record(*board),
                alpha,
                beta,
                distance_from_root as int,
                old(self).node_count,
            ),
            final(self).table() == old(self).table(),
            final(self).max_depth == old(self).max_depth,
            final(self).move_time == old(self).move_time,
            final(self).move_number == old(self).move_number,
            final(self).board == old(self).board,
            final(self).playing == old(self).playing,
        decreases MAX_DISTANCE - distance_from_root, 1int, 0int,
    {
        let ghost record = board_record(*board);
        let ghost goal = game_quiesce(
            record,
            alpha,
            beta,
            distance_from_root as int,
            self.node_count,
        );
        if self.node_count < u64::MAX {
            self.node_count = self.node_count + 1;
        }
        let stand_pat = eval(board, distance_from_root);
        let maximizing = side_to_move(board) == Color::White;
        let mut low = alpha;
        let mut high = beta;
        if maximizing {
            if stand_pat >= high {
                return high;
            }
            if stand_pat > low {
                low = stand_pat;
            }
        } else {
            if stand_pat <= low {
                return low;
            }
            if stand_pat < high {
                high = stand_pat;
            }
        }
        if distance_from_root < MAX_DISTANCE {
            let moves = generate_captures(board);
            let mut i: usize = 0;
            while i < moves.len()
                invariant
                    i <= moves@.len(),
                    distance_from_root < MAX_DISTANCE,
                    record == board_record(*board),
                    maximizing == (side_of(record) == Color::White),
                    forall|k: int|
                        0 <= k < moves@.len() ==> record_moves(record).contains(#[trigger] moves@[k]),
                    game_quiesce_captures(
                        record,
                        moves@,
                        i as int,
                        low,
                        high,
                        distance_from_root as int,
                        self.node_count,
                    ) == goal,
                    goal == game_quiesce(
                        record,
                        alpha,
                        beta,
                        distance_from_root as int,
                        old(self).node_count,
                    ),
                    self.table() == old(self).table(),
                    self.max_depth == old(self).max_depth,
                    self.move_time == old(self).move_time,
                    self.move_number == old(self).move_number,
                    self.board == old(self).board,
                    self.playing == old(self).playing,
                decreases moves@.len() - i,
            {
                let new_board = play(board, moves[i]);
                let score = self.quiescence(&new_board, low, high, distance_from_root + 1);
                if maximizing {
                    if score > low {
                        low = score;
                    }
                    if low >= high {
                        return low;
                    }
                } else {
                    if score < high {
                        high = score;
                    }
                    if high <= low {
                        return high;
                    }
                }
                i = i + 1;
            }
        }
        if maximizing {
            low
        } else {
            high
        }
    }

    /// Searches a position of the game `depth` half-moves deep. `None` if
    /// the flag was found lowered at some node; else the score and the best
    /// move.
    pub fn alpha_beta(
        &mut self,
        board: &Board,
        depth: u8,
        alpha: i32,
        beta: i32,
        distance_from_root: u32,
    ) -> (found: Option<(i32, Option<Move>)>)
        requires
            distance_from_root <= MAX_DISTANCE,
        ensures
            found matches Some(best) ==> game_meets(
                best.0,
                best.1,
                final(self).table(),
                final(self).node_count,
                game_search(
                    board_record(*board),
                    depth as int,
                    alpha,
                    beta,
                    distance_from_root as int,
                    (GameState { table: old(self).table(), nodes: old(self).node_count }),
                ),
            ),
            final(self).max_depth == old(self).max_depth,
            final(self).move_time == old(self).move_time,
            final(self).move_number == old(self).move_number,
            final(self).board == old(self).board,
            final(self).playing == old(self).playing,
        decreases depth, 1int, 0int,
    {
        let playing = still_playing(&self.playing);
        self.alpha_beta_node(board, depth, alpha, beta, distance_from_root, playing)
    }

    /// The search of one node once the flag has been read there, as
    /// `playing`. With the flag lowered the search stops at once and
    /// changes nothing. With the flag raised, a node that the table
    /// answers, a finished game and a node at the horizon come to their
    /// result whatever the flag does later; where moves are searched, each
    /// reads the flag anew, and a lowered flag stops the whole search.
    pub fn alpha_beta_node(
        &mut self,
        board: &Board,
        depth: u8,
        alpha: i32,
        beta: i32,
        distance_from_root: u32,
        playing: bool,
    ) -> (found: Option<(i32, Option<Move>)>)
        requires
            distance_from_root <= MAX_DISTANCE,
        ensures
            !playing ==> found is None,
            !playing ==> final(self).table() == old(self).table(),
            !playing ==> final(self).node_count == old(self).node_count,
            playing && answers_at_once(
                board_record(*board),
                depth as int,
                distance_from_root as int,
                old(self).table(),
            ) ==> found is Some,
            found matches Some(best) ==> game_meets(
                best.0,
                best.1,
                final(self).table(),
                final(self).node_count,
                game_search(
                    board_record(*board),
                    depth as int,
                    alpha,
                    beta,
                    distance_from_root as int,
                    (GameState { table: old(self).table(), nodes: old(self).node_count }),
                ),
            ),
            final(self).max_depth == old(self).max_depth,
            final(self).move_time == old(self).move_time,
            final(self).move_number == old(self).move_number,
            final(self).board == old(self).board,
            final(self).playing == old(self).playing,
        decreases depth, 0int, 0int,
    {
        broadcast use vstd::std_specs::hash::group_hash_axioms;

        if !playing {
            return None;
        }
        let ghost record = board_record(*board);
        let ghost goal = game_search(
            record,
            depth as int,
            alpha,
            beta,
            distance_from_root as int,
            (GameState { table: self.table(), nodes: self.node_count }),
        );
        let maximizing = side_to_move(board) == Color::White;
        let key = hash(board);
        if let Some(entry) = self.tt.get(&key) {
            if entry.depth >= depth {
                return Some((entry.score, Some(entry.chess_move)));
            }
        }
        if self.node_count < u64::MAX {
            self.node_count = self.node_count + 1;
        }
        if status(board) != GameStatus::Ongoing {
            return Some((eval(board, distance_from_root), None));
        }
        if depth == 0 || distance_from_root >= MAX_DISTANCE {
            let score = self.quiescence(board, alpha, beta, distance_from_root);
            return Some((score, None));
        }
        let moves = generate_moves(board);
        let mut low = alpha;
        let mut high = beta;
        let mut best_score: i32 = if maximizing {
            i32::MIN
        } else {
            i32::MAX
        };
        let mut best_move: Option<Move> = None;
        let mut i: usize = 0;
        while i < moves.len()
            invariant
                i <= moves@.len(),
                depth > 0,
                distance_from_root < MAX_DISTANCE,
                record == board_record(*board),
                key == record_hash(record),
                moves@ == record_moves(record),
                maximizing == (side_of(record) == Color::White),
                game_moves(
                    record,
                    depth as int,
                    distance_from_root as int,
                    moves@,
                    i as int,
                    low,
                    high,
                    best_score,
                    best_move,
                    (GameState { table: self.table(), nodes: self.node_count }),
                ) == goal,
                goal == game_search(
                    record,
                    depth as int,
                    alpha,
                    beta,
                    distance_from_root as int,
                    (GameState { table: old(self).table(), nodes: old(self).node_count }),
                ),
                self.max_depth == old(self).max_depth,
                self.move_time == old(self).move_time,
                self.move_number == old(self).move_number,
                self.board == old(self).board,
                self.playing == old(self).playing,
                playing,
                !answers_at_once(
                    record,
                    depth as int,
                    distance_from_root as int,
                    old(self).table(),
                ),
            decreases moves@.len() - i,
        {
            let mv = moves[i];
            let new_board = play(board, mv);
            let score = match self.alpha_beta(&new_board, depth - 1, low, high, distance_from_root + 1) {
                Some(reply) => reply.0,
                None => {
                    return None;
                },
            };
            let mut cut = false;
            if maximizing {
                if score > best_score {
                    best_score = score;
                    best_move = Some(mv);
                }
                if best_score >= high {
                    cut = true;
                } else if best_score > low {
                    low = best_score;
                }
            } else {
                if score < best_score {
                    best_score = score;
                    best_move = Some(mv);
                }
                if best_score <= low {
                    cut = true;
                } else if best_score < high {
                    high = best_score;
                }
            }
            if cut {
                if let Some(mv) = best_move {
                    self.tt.insert(key, TTStore { depth, score: best_score, chess_move: mv });
                }
                return Some((best_score, best_move));
            }
            i = i + 1;
        }
        if let Some(mv) = best_move {
            self.tt.insert(key, TTStore { depth, score: best_score, chess_move: mv });
        }
        Some((best_score, best_move))
    }

    /// Searches the game's position depth after depth, up to the deepest
    /// depth, until the flag is found lowered. Hands back the best move of
    /// the last depth that found one, and adds a line to `report` for every
    /// completed depth after which a move is known.
    ///
    /// The flag is raised here at the start of every search; whoever
    /// wants the search to end lowers it, at a stop or when the time for
    /// the move is up.
    ///
    /// When the search ends and how long each depth takes is up to the flag
    /// and the clock; whenever it ends, it has completed some number of
    /// depths, and what it hands back and reports is what `game_deepening`
    /// and `game_lines` lay down for that number and those times.
    pub fn go(&mut self, report: &mut Vec<String>) -> (best: Option<Move>)
        ensures
            exists|times: Seq<u64>|
                times.len() <= old(self).max_depth && best == game_deepening(
                    board_record(old(self).board),
                    old(self).table(),
                    times.len() as int,
                ).0 && texts(final(report)@) == texts(old(report)@) + #[trigger] game_lines(
                    board_record(old(self).board),
                    old(self).table(),
                    times.len() as int,
                    times,
                ),
            old(self).max_depth == 0 ==> best is None && final(report)@ == old(report)@,
            final(self).max_depth == old(self).max_depth,
            final(self).move_time == old(self).move_time,
            final(self).move_number == old(self).move_number,
            final(self).board == old(self).board,
            final(self).playing == old(self).playing,
    {
        let start = now();
        let mut completed: u8 = 0;
        let mut best_move: Option<Move> = None;
        start_playing(&self.playing);
        self.node_count = 0;
        let ghost record = board_record(self.board);
        let ghost table = self.table();
        let ghost earlier = texts(old(report)@);
        let ghost mut times: Seq<u64> = Seq::empty();
        assert(texts(report@) =~= earlier + game_lines(record, table, 0, times));
        loop
            invariant_except_break
                self.table() == game_deepening(record, table, completed as int).1.table,
                self.node_count == game_deepening(record, table, completed as int).1.nodes,
            invariant
                completed <= self.max_depth,
                record == board_record(self.board),
                table == old(self).table(),
                self.max_depth == old(self).max_depth,
                self.move_time == old(self).move_time,
                self.move_number == old(self).move_number,
                self.board == old(self).board,
                self.playing == old(self).playing,
                best_move == game_deepening(record, table, completed as int).0,
                times.len() == completed,
                texts(report@) == earlier + game_lines(record, table, completed as int, times),
                completed == 0 ==> report@ == old(report)@,
            ensures
                best_move == game_deepening(record, table, completed as int).0,
            decreases self.max_depth - completed,
        {
            let playing = still_playing(&self.playing);
            if !plays_on(completed, self.max_depth, playing) {
                break;
            }
            let new_board = self.board.clone();
            let (score, mv) = match self.alpha_beta(&new_board, completed + 1, i32::MIN, i32::MAX, 0) {
                Some(found) => found,
                None => {
                    break;
                },
            };
            if let Some(mv) = mv {
                best_move = Some(mv);
            }
            completed = completed + 1;
            let passed = elapsed_ms(&start);
            let elapsed: u64 = if passed > u64::MAX as u128 {
                u64::MAX
            } else {
                passed as u64
            };
            let ghost reported = texts(report@);
            proof {
                lemma_game_lines_prefix(record, table, completed - 1, times, times.push(elapsed));
                times = times.push(elapsed);
            }
            if let Some(mv) = best_move {
                report.push(game_info_line(completed, score, self.node_count, elapsed, mv));
                assert(texts(report@) =~= reported.push(report@.last()@));
            }
            assert(texts(report@) =~= earlier + game_lines(record, table, completed as int, times));
        }
        best_move
    }
}

/// Whether the search of a node comes to its result without searching a
/// move: the table holds the position from a search at least as deep, or
/// the game is finished there, or the node lies at the horizon.
pub open spec fn answers_at_once(record: Seq<u16>, depth: int, ply: int, table: Map<u64, TTStore>) -> bool {
    ||| table.contains_key(record_hash(record)) && table[record_hash(record)].depth >= depth
    ||| status_of(record) != GameStatus::Ongoing
    ||| depth <= 0
    ||| ply >= MAX_DISTANCE
}

/// Whether what a search of a game handed back is the given result and state.
pub open spec fn game_meets(
    score: i32,
    mv: Option<Move>,
    table: Map<u64, TTStore>,
    nodes: u64,
    expected: GameResult,
) -> bool {
    &&& score == expected.score
    &&& mv == expected.mv
    &&& table == expected.state.table
    &&& nodes == expected.state.nodes
}

} // verus!
