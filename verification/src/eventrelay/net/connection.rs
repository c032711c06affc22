//! How a connection reads its frames: the length header, and which handler
//! a complete frame goes to.

use vstd::prelude::*;
use crate::error::{ErrorCode, ReplicashError, is_standard_error};
use crate::tlv::message::TLVMessage;
use crate::tlv::types::EventType;
use crate::tlv::wire::{be_u32_value, decode_event, read_be_u32};

verus! {

/// The handler that a frame goes to.
#[derive(Debug, Clone, Copy, PartialEq, Eq, Structural)]
pub enum FrameRoute {
    SyncInit,
    SyncAck,
    Subscribe,
    Event,
}

/// The route of each event type that a connection accepts.
pub open spec fn route_of(et: EventType) -> Option<FrameRoute> {
    match et {
        EventType::SyncInit => Some(FrameRoute::SyncInit),
        EventType::SyncAck => Some(FrameRoute::SyncAck),
        EventType::Subscribe => Some(FrameRoute::Subscribe),
        EventType::Event => Some(FrameRoute::Event),
        _ => None,
    }
}

/// The number of bytes that follow the 4-byte length header of a frame: the
/// length counts the header itself. A length below 4 has no frame.
pub fn frame_body_len(header: &[u8]) -> (r: Option<usize>)
    requires
        header@.len() == 4,
    ensures
        be_u32_value(header@) >= 4 ==> r == Some((be_u32_value(header@) - 4) as usize),
        be_u32_value(header@) < 4 ==> r is None,
{
    let len = read_be_u32(header, 0);
    assert(header@.subrange(0, 4) =~= header@);
    if len < 4 {
        None
    } else {
        Some((len - 4) as usize)
    }
}

/// Where a complete frame goes, by its event type: handshakes, subscriptions
/// and events are handled; any other event type closes the connection with
/// an error.
pub fn route_frame(raw: &[u8]) -> (r: core::result::Result<FrameRoute, ReplicashError>)
    ensures
        match decode_event(raw@) {
            Err((c, t)) => r matches Err(e) && is_standard_error(e, c, t),
            Ok(et) => match route_of(et) {
                Some(route) => r matches Ok(x) && x == route,
                None => r matches Err(e) && is_standard_error(e, ErrorCode::InvalidEventType, "Unknown EventType"@),
            },
        },
{
    let event = TLVMessage::extract_event(raw)?;
    match event {
        EventType::SyncInit => Ok(FrameRoute::SyncInit),
        EventType::SyncAck => Ok(FrameRoute::SyncAck),
        EventType::Subscribe => Ok(FrameRoute::Subscribe),
        EventType::Event => Ok(FrameRoute::Event),
        _ => Err(ReplicashError::new(ErrorCode::InvalidEventType, String::from_str("Unknown EventType"))),
    }
}

/// A connection handles exactly four kinds of frame, each by its own
/// handler: SyncInit, SyncAck, Subscribe and Event. Every other event type
/// (Set, Get, Delete, GetGroup, SyncPush, SyncPull, SyncSummary,
/// SyncTombstone, Error, Ok) is refused. By the frame's type byte: a frame
/// whose event decodes is routed exactly when its byte is 0x22, 0x23, 0x11 or
/// 0x10.
pub proof fn law_routes(raw: Seq<u8>)
    ensures
        route_of(EventType::SyncInit) == Some(FrameRoute::SyncInit),
        route_of(EventType::SyncAck) == Some(FrameRoute::SyncAck),
        route_of(EventType::Subscribe) == Some(FrameRoute::Subscribe),
        route_of(EventType::Event) == Some(FrameRoute::Event),
        route_of(EventType::SetValue) is None,
        route_of(EventType::Get) is None,
        route_of(EventType::Delete) is None,
        route_of(EventType::GetGroup) is None,
        route_of(EventType::SyncPush) is None,
        route_of(EventType::SyncPull) is None,
        route_of(EventType::SyncSummary) is None,
        route_of(EventType::SyncTombstone) is None,
        route_of(EventType::Error) is None,
        route_of(EventType::OkResponse) is None,
        decode_event(raw) matches Ok(et) ==> (route_of(et) is Some <==> (raw[4] == 0x22 || raw[4] == 0x23
            || raw[4] == 0x11 || raw[4] == 0x10)),
{
}

} // verus!
