//! The relay: subscriptions, connections and the decisions taken on each
//! frame that a connection receives.

use vstd::prelude::*;
use crate::eventrelay::config::ServerConfig;
use crate::text::text_bytes;

pub mod broadcaster;
pub mod client;
pub mod config;
pub mod handler;
pub mod laws;
pub mod net;
pub mod subscriptions;
pub mod tables;
pub mod types;

verus! {

/// The topics of the public channels of a configuration: the bytes of each
/// channel name, in order.
pub fn public_channel_topics(config: &ServerConfig) -> (topics: Vec<Vec<u8>>)
    ensures
        topics@.len() == config.public_channels@.len(),
        forall|i: int| 0 <= i < topics@.len() ==> #[trigger] topics@[i]@ == text_bytes(config.public_channels@[i]@),
{
    let mut topics: Vec<Vec<u8>> = Vec::new();
    let mut i: usize = 0;
    while i < config.public_channels.len()
        invariant
            i <= config.public_channels@.len(),
            topics@.len() == i,
            forall|j: int| 0 <= j < i ==> #[trigger] topics@[j]@ == text_bytes(config.public_channels@[j]@),
        decreases config.public_channels@.len() - i,
    {
        let channel: &str = config.public_channels[i].as_str();
        topics.push(vstd::slice::slice_to_vec(channel.as_bytes()));
        i = i + 1;
    }
    topics
}

/// The peers of a configuration, each named `peer-` followed by its address,
/// with its address.
pub fn peer_list(config: &ServerConfig) -> (peers: Vec<(String, String)>)
    ensures
        peers@.len() == config.peers@.len(),
        forall|i: int| 0 <= i < peers@.len() ==> {
            &&& (#[trigger] peers@[i]).0@ == "peer-"@ + config.peers@[i]@
            &&& peers@[i].1@ == config.peers@[i]@
        },
{
    let mut peers: Vec<(String, String)> = Vec::new();
    let mut i: usize = 0;
    while i < config.peers.len()
        invariant
            i <= config.peers@.len(),
            peers@.len() == i,
            forall|j: int| 0 <= j < i ==> {
                &&& (#[trigger] peers@[j]).0@ == "peer-"@ + config.peers@[j]@
                &&& peers@[j].1@ == config.peers@[j]@
            },
        decreases config.peers@.len() - i,
    {
        let addr: &str = config.peers[i].as_str();
        let mut id = String::from_str("peer-");
        id.append(addr);
        peers.push((id, String::from_str(addr)));
        i = i + 1;
    }
    peers
}

} // verus!
