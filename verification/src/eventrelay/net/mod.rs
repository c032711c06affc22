//! The decisions of the network layer: how a frame is routed, what a
//! handshake and an event do, and when to reconnect to a peer.

pub mod connection;
pub mod connector;
pub mod events;
pub mod reconnector;
