//! The TLV wire protocol: event types, field types and messages.

pub mod types;
pub mod fields;
pub mod wire;
pub mod message;
pub mod laws;
