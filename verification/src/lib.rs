//! A chess engine core: iterative-deepening alpha-beta search over positions
//! supplied by `cozy_chess`, with a transposition table, quiescence search,
//! move ordering, repetition detection and a time controller.
//!
//! The newest search lives in `search::mini_max` and is driven by
//! `uci::uci_command_go`; `search` itself and `game` hold two plainer
//! searches that score by material and mate alone.

pub mod board;
pub mod clock;
pub mod eval;
pub mod eval_count_material;
pub mod eval_is_mate;
pub mod eval_mate_in;
pub mod game;
pub mod perft;
pub mod search;
pub mod text;
pub mod time_manager;
pub mod types;
pub mod uci;
