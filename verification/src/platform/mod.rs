//! What depends on the platform: clocks and network interfaces.

pub mod clock;
pub mod network;

pub use clock::{GenericClock, LinuxClock};
pub use network::scan_network_interfaces;
