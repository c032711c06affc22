//! Eventrelay: a relay for events across a network of peers.
//!
//! The library holds the verified core of the relay: the TLV wire format,
//! the error codes, the subscription table, the connection registry and the
//! decisions that the network layer takes on each incoming frame.
#![allow(unused_imports)]

use vstd::prelude::*;

pub mod error;
pub mod text;
pub mod tlv;
pub mod eventrelay;

verus! {

} // verus!
