//! Discovery of peers on the local network.

pub mod gateway;
pub mod gateway_laws;
pub mod interface_scanner;
pub mod messenger;
pub mod messenger_laws;
pub mod peer_laws;
pub mod peers;
