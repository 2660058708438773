//! A topic-based publish/subscribe relay for OSC datagrams: classification of
//! incoming packets and the subscription registry that routes payload messages.
pub mod osc;
pub mod packet;
pub mod registry;
pub mod startup_args;
pub mod laws;

pub use packet::{Messages, Packet, PacketError};
pub use registry::Registry;
pub use startup_args::StartupArgs;
