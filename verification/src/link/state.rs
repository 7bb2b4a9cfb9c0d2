//! What a client of a session sees of it, and what peers tell each other of start and stop.

use vstd::prelude::*;

use crate::link::duration::Duration;
use crate::link::timeline::{Beats, Timeline};

verus! {

/// Whether a client's transport plays, since when, and when that was decided.
#[derive(Clone, Copy, Debug, PartialEq, Eq, Structural)]
pub struct ClientStartStopState {
    pub is_playing: bool,
    pub time: Duration,
    pub timestamp: Duration,
}

/// The session as a client sees it.
#[derive(Clone, Copy, Debug, PartialEq)]
pub struct ClientState {
    pub timeline: Timeline,
    pub start_stop_state: ClientStartStopState,
}

/// The start and stop state that peers exchange, with its place on the beat grid.
#[derive(Clone, Copy, Debug, PartialEq, Eq, Structural)]
pub struct StartStopState {
    pub is_playing: bool,
    pub beats: Beats,
    pub timestamp: Duration,
}

} // verus!
