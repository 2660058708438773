//! The relay's configuration: where it binds, and on which ports it listens
//! and sends.
use vstd::prelude::*;

verus! {

/// Bind address, receive and send ports, and the optional bridge port.
pub struct StartupArgs {
    pub bind_address: String,
    pub udp_send_port: u16,
    pub udp_receive_port: u16,
    pub websocket_port: Option<u16>,
}

impl Default for StartupArgs {
    /// All interfaces, receiving on port 9000 and sending from port 9001, no bridge.
    fn default() -> (r: StartupArgs)
        ensures
            r.bind_address@ == "0.0.0.0"@,
            r.udp_receive_port == 9000,
            r.udp_send_port == 9001,
            r.websocket_port is None,
    {
        proof {
            reveal_strlit("0.0.0.0");
        }
        StartupArgs {
            bind_address: "0.0.0.0".to_owned(),
            udp_send_port: 9001,
            udp_receive_port: 9000,
            websocket_port: None,
        }
    }
}

} // verus!
