//! The shared flag by which a running search is told to stop.

use vstd::prelude::*;
use std::sync::atomic::AtomicBool;
use std::sync::atomic::Ordering;

verus! {

/// Reads the flag: `true` while the search may go on. What comes back is up
/// to whoever holds the flag, so nothing is promised of it.
pub fn still_playing(is_playing: &AtomicBool) -> bool {
    is_playing.load(Ordering::SeqCst)
}

/// Raises the flag: a search may run.
pub fn start_playing(is_playing: &AtomicBool) {
    is_playing.store(true, Ordering::SeqCst)
}

/// Lowers the flag: a running search stops at its next node.
pub fn stop_playing(is_playing: &AtomicBool) {
    is_playing.store(false, Ordering::SeqCst)
}

} // verus!
