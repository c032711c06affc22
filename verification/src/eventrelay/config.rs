//! The configuration of a relay server.

use vstd::prelude::*;

verus! {

/// The configuration of a server: its id, the address it listens on, the
/// addresses of the peer servers and the public channels.
#[derive(Debug, Clone)]
pub struct ServerConfig {
    pub id: String,
    pub addr: String,
    pub peers: Vec<String>,
    pub public_channels: Vec<String>,
}

} // verus!
