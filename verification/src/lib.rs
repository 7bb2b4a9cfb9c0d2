//! The core of a peer-to-peer protocol that keeps tempo, beat and transport of applications on
//! a local network in step: discovery of peers, measurement of their clocks, choice of a
//! session, and the session state that applications capture, edit and commit.

pub mod discovery;
pub mod link;
pub mod platform;
pub mod seq_facts;
