//! Names for the raw types of the relay.

use vstd::prelude::*;
use dashmap::DashMap;

verus! {

/// Topic = raw bytes.
pub type Topic = Vec<u8>;

/// The id of a client in a client registry.
pub type ClientId = u64;

/// Mapping: topic to its subscribed clients.
pub type Subscriptions = DashMap<Topic, Vec<Vec<u8>>>;

} // verus!
