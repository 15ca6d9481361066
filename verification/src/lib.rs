//! The rules of a userspace VXLAN tunnel endpoint whose Ethernet side is a
//! vmnet bridge: packet framing, bridge naming and reservation, `ifconfig`
//! text, tunnel construction and the forwarding workers.
//!
//! The crate performs no I/O. Where the tunnel has to act on the outside
//! world, a state machine names the action and is handed what came of it.

pub mod addr;
pub mod bridge;
pub mod cli;
pub mod error;
pub mod ifconfig;
pub mod packet;
pub mod peer;
pub mod setup;
pub mod setup_laws;
pub mod text;
pub mod worker;
pub mod worker_laws;
