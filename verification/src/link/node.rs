//! Peers and the sessions that they belong to.

use vstd::prelude::*;

use crate::link::sessions::SessionId;
use crate::link::state::StartStopState;
use crate::link::timeline::Timeline;

verus! {

/// The identifier of a peer: eight bytes, held as the number that they spell with the most
/// significant byte first, so that identifiers are ordered as their bytes are.
#[derive(Clone, Copy, Debug, Default, PartialEq, Eq, PartialOrd, Ord, Hash, Structural)]
pub struct NodeId(pub u64);

/// What a peer tells of itself.
#[derive(Clone, Copy, Debug, PartialEq)]
pub struct NodeState {
    pub node_id: NodeId,
    pub session_id: SessionId,
    pub timeline: Timeline,
    pub start_stop_state: StartStopState,
}

impl NodeState {
    /// The identifier of the peer.
    pub fn ident(&self) -> (id: NodeId)
        ensures
            id == self.node_id,
    {
        self.node_id
    }
}

} // verus!
