//! What the engine's commands decide and compute; reading and printing are
//! left to the program around the library.

pub mod format_move;
pub mod uci_command_go;
pub mod uci_command_perft;
pub mod uci_command_position;
pub mod uci_command_testeval;
pub mod uci_loop;
