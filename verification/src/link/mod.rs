//! Session state of a Link peer: what clients capture and commit, which sessions there are,
//! and how the time of another session is measured.

pub mod atomic_session_state;
pub mod basic_link;
pub mod duration;
pub mod ghostxform;
pub mod ieee;
pub mod measurement;
pub mod measurement_laws;
pub mod node;
pub mod payload;
pub mod rt_client_state;
pub mod rt_session_state;
pub mod safe_rt_session_state;
pub mod session_laws;
pub mod session_state;
pub mod sessions;
pub mod state;
pub mod state_buffer;
pub mod state_laws;
pub mod timeline;
pub mod wire;
pub mod wrap;

pub use crate::link::basic_link::{AppCommit, BasicLink};
pub use crate::link::session_state::{
    to_incoming_client_state, to_session_state, ApiStartStopState, ApiState, IncomingClientState,
    SessionState,
};
