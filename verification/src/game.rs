//! The game loop's terminal-condition decision.
//!
//! The orchestrator around the library drives input, updates and rendering;
//! what it decides each tick — keep running, win, or lose — is stated and
//! proved here.

use vstd::prelude::*;

verus! {

#[derive(Clone, Copy, PartialEq, Eq, Structural, Debug)]
pub enum GameStatus {
    Running,
    Won,
    Lost,
}

/// The decision after a tick: quitting loses at once, a cleared formation
/// wins, a landed formation loses, otherwise play goes on.
pub open spec fn spec_status(quit: bool, cleared: bool, landed: bool) -> GameStatus {
    if quit {
        GameStatus::Lost
    } else if cleared {
        GameStatus::Won
    } else if landed {
        GameStatus::Lost
    } else {
        GameStatus::Running
    }
}

pub fn evaluate_status(quit: bool, cleared: bool, landed: bool) -> (s: GameStatus)
    ensures
        s == spec_status(quit, cleared, landed),
{
    if quit {
        GameStatus::Lost
    } else if cleared {
        GameStatus::Won
    } else if landed {
        GameStatus::Lost
    } else {
        GameStatus::Running
    }
}

} // verus!
