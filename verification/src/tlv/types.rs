//! Event types and field types of the TLV protocol.

use vstd::prelude::*;
use crate::error::{ErrorCode, ReplicashError, is_standard_error};
use crate::text::{hex2, with_hex2};

verus! {

/// Event types of the TLV protocol.
#[derive(Debug, Clone, Copy, PartialEq, Eq, Hash, Structural)]
pub enum EventType {
    SetValue,
    Get,
    Delete,
    GetGroup,
    Event,
    Subscribe,
    SyncPush,
    SyncPull,
    SyncInit,
    SyncAck,
    SyncSummary,
    SyncTombstone,
    Error,
    OkResponse,
}

/// The wire byte of a event type.
pub open spec fn event_type_byte(t: EventType) -> u8 {
    match t {
        EventType::SetValue => 0x01,
        EventType::Get => 0x02,
        EventType::Delete => 0x03,
        EventType::GetGroup => 0x04,
        EventType::Event => 0x10,
        EventType::Subscribe => 0x11,
        EventType::SyncPush => 0x20,
        EventType::SyncPull => 0x21,
        EventType::SyncInit => 0x22,
        EventType::SyncAck => 0x23,
        EventType::SyncSummary => 0x24,
        EventType::SyncTombstone => 0x25,
        EventType::Error => 0xF0,
        EventType::OkResponse => 0xF1,
    }
}

/// The event type whose wire byte is `b`, if there is one.
pub open spec fn event_type_of_byte(b: u8) -> Option<EventType> {
    if b == 0x01 { Some(EventType::SetValue) }
    else if b == 0x02 { Some(EventType::Get) }
    else if b == 0x03 { Some(EventType::Delete) }
    else if b == 0x04 { Some(EventType::GetGroup) }
    else if b == 0x10 { Some(EventType::Event) }
    else if b == 0x11 { Some(EventType::Subscribe) }
    else if b == 0x20 { Some(EventType::SyncPush) }
    else if b == 0x21 { Some(EventType::SyncPull) }
    else if b == 0x22 { Some(EventType::SyncInit) }
    else if b == 0x23 { Some(EventType::SyncAck) }
    else if b == 0x24 { Some(EventType::SyncSummary) }
    else if b == 0x25 { Some(EventType::SyncTombstone) }
    else if b == 0xF0 { Some(EventType::Error) }
    else if b == 0xF1 { Some(EventType::OkResponse) }
    else { None }
}

/// The message of the error for an unknown event type byte.
pub open spec fn unknown_event_type_text(b: u8) -> Seq<char> {
    "Unknown event type: 0x"@ + hex2(b)
}

impl EventType {
    /// Convert a u8 to a EventType.
    pub fn from_u8(value: u8) -> (r: core::result::Result<EventType, ReplicashError>)
        ensures
            match event_type_of_byte(value) {
                Some(t) => r matches Ok(u) && u == t,
                None => r matches Err(e) && is_standard_error(e, ErrorCode::InvalidEventType, unknown_event_type_text(value)),
            },
    {
        match value {
            0x01 => Ok(EventType::SetValue),
            0x02 => Ok(EventType::Get),
            0x03 => Ok(EventType::Delete),
            0x04 => Ok(EventType::GetGroup),
            0x10 => Ok(EventType::Event),
            0x11 => Ok(EventType::Subscribe),
            0x20 => Ok(EventType::SyncPush),
            0x21 => Ok(EventType::SyncPull),
            0x22 => Ok(EventType::SyncInit),
            0x23 => Ok(EventType::SyncAck),
            0x24 => Ok(EventType::SyncSummary),
            0x25 => Ok(EventType::SyncTombstone),
            0xF0 => Ok(EventType::Error),
            0xF1 => Ok(EventType::OkResponse),
            _ => Err(ReplicashError::new(ErrorCode::InvalidEventType, with_hex2("Unknown event type: 0x", value))),
        }
    }

    /// The wire byte of the event type.
    pub fn as_u8(&self) -> (b: u8)
        ensures
            b == event_type_byte(*self),
    {
        match self {
            EventType::SetValue => 0x01,
            EventType::Get => 0x02,
            EventType::Delete => 0x03,
            EventType::GetGroup => 0x04,
            EventType::Event => 0x10,
            EventType::Subscribe => 0x11,
            EventType::SyncPush => 0x20,
            EventType::SyncPull => 0x21,
            EventType::SyncInit => 0x22,
            EventType::SyncAck => 0x23,
            EventType::SyncSummary => 0x24,
            EventType::SyncTombstone => 0x25,
            EventType::Error => 0xF0,
            EventType::OkResponse => 0xF1,
        }
    }
}

/// Field types of the TLV protocol.
#[derive(Debug, Clone, Copy, PartialEq, Eq, Hash, Structural)]
pub enum FieldType {
    Key,
    Value,
    Ttl,
    Persistent,
    Group,
    Timestamp,
    Version,
    ErrorCode,
    ErrorText,
}

/// The wire byte of a field type.
pub open spec fn field_type_byte(t: FieldType) -> u8 {
    match t {
        FieldType::Key => 0x01,
        FieldType::Value => 0x02,
        FieldType::Ttl => 0x03,
        FieldType::Persistent => 0x04,
        FieldType::Group => 0x05,
        FieldType::Timestamp => 0x06,
        FieldType::Version => 0x07,
        FieldType::ErrorCode => 0x08,
        FieldType::ErrorText => 0x09,
    }
}

/// The field type whose wire byte is `b`, if there is one.
pub open spec fn field_type_of_byte(b: u8) -> Option<FieldType> {
    if b == 0x01 { Some(FieldType::Key) }
    else if b == 0x02 { Some(FieldType::Value) }
    else if b == 0x03 { Some(FieldType::Ttl) }
    else if b == 0x04 { Some(FieldType::Persistent) }
    else if b == 0x05 { Some(FieldType::Group) }
    else if b == 0x06 { Some(FieldType::Timestamp) }
    else if b == 0x07 { Some(FieldType::Version) }
    else if b == 0x08 { Some(FieldType::ErrorCode) }
    else if b == 0x09 { Some(FieldType::ErrorText) }
    else { None }
}

/// The message of the error for an unknown field type byte.
pub open spec fn unknown_field_type_text(b: u8) -> Seq<char> {
    "Unknown field type: 0x"@ + hex2(b)
}

impl FieldType {
    /// Convert a u8 to a FieldType.
    pub fn from_u8(value: u8) -> (r: core::result::Result<FieldType, ReplicashError>)
        ensures
            match field_type_of_byte(value) {
                Some(t) => r matches Ok(u) && u == t,
                None => r matches Err(e) && is_standard_error(e, ErrorCode::MalformedTlv, unknown_field_type_text(value)),
            },
    {
        match value {
            0x01 => Ok(FieldType::Key),
            0x02 => Ok(FieldType::Value),
            0x03 => Ok(FieldType::Ttl),
            0x04 => Ok(FieldType::Persistent),
            0x05 => Ok(FieldType::Group),
            0x06 => Ok(FieldType::Timestamp),
            0x07 => Ok(FieldType::Version),
            0x08 => Ok(FieldType::ErrorCode),
            0x09 => Ok(FieldType::ErrorText),
            _ => Err(ReplicashError::new(ErrorCode::MalformedTlv, with_hex2("Unknown field type: 0x", value))),
        }
    }

    /// The wire byte of the field type.
    pub fn as_u8(&self) -> (b: u8)
        ensures
            b == field_type_byte(*self),
    {
        match self {
            FieldType::Key => 0x01,
            FieldType::Value => 0x02,
            FieldType::Ttl => 0x03,
            FieldType::Persistent => 0x04,
            FieldType::Group => 0x05,
            FieldType::Timestamp => 0x06,
            FieldType::Version => 0x07,
            FieldType::ErrorCode => 0x08,
            FieldType::ErrorText => 0x09,
        }
    }
}

/// Decoding an event type undoes encoding it.
pub proof fn law_event_type_byte_roundtrip(t: EventType)
    ensures
        event_type_of_byte(event_type_byte(t)) == Some(t),
{
}

/// Encoding a decoded event type gives back the byte.
pub proof fn law_event_type_byte_inverse(b: u8)
    ensures
        event_type_of_byte(b) matches Some(t) ==> event_type_byte(t) == b,
{
}

/// Decoding a field type undoes encoding it.
pub proof fn law_field_type_byte_roundtrip(t: FieldType)
    ensures
        field_type_of_byte(field_type_byte(t)) == Some(t),
{
}

/// Encoding a decoded field type gives back the byte.
pub proof fn law_field_type_byte_inverse(b: u8)
    ensures
        field_type_of_byte(b) matches Some(t) ==> field_type_byte(t) == b,
{
}

/// The wire bytes of the field types are the protocol's constants: Key 0x01,
/// Value 0x02, Ttl 0x03, Persistent 0x04, Group 0x05, Timestamp 0x06,
/// Version 0x07, ErrorCode 0x08, ErrorText 0x09; a byte names a field type
/// exactly when it is one of these, and then names the type with that byte.
pub proof fn law_field_type_wire_bytes(b: u8)
    ensures
        field_type_byte(FieldType::Key) == 0x01,
        field_type_byte(FieldType::Value) == 0x02,
        field_type_byte(FieldType::Ttl) == 0x03,
        field_type_byte(FieldType::Persistent) == 0x04,
        field_type_byte(FieldType::Group) == 0x05,
        field_type_byte(FieldType::Timestamp) == 0x06,
        field_type_byte(FieldType::Version) == 0x07,
        field_type_byte(FieldType::ErrorCode) == 0x08,
        field_type_byte(FieldType::ErrorText) == 0x09,
        field_type_of_byte(b) is Some <==> 0x01 <= b <= 0x09,
        forall|t: FieldType| field_type_of_byte(b) == Some(t) <==> field_type_byte(t) == b,
{
}

/// The wire bytes of the event types are the protocol's constants: Set 0x01,
/// Get 0x02, Delete 0x03, GetGroup 0x04, Event 0x10, Subscribe 0x11,
/// SyncPush 0x20, SyncPull 0x21, SyncInit 0x22, SyncAck 0x23, SyncSummary
/// 0x24, SyncTombstone 0x25, Error 0xF0, Ok 0xF1; a byte names an event type
/// exactly when it is one of these, and then names the type with that byte.
pub proof fn law_event_type_wire_bytes(b: u8)
    ensures
        event_type_byte(EventType::SetValue) == 0x01,
        event_type_byte(EventType::Get) == 0x02,
        event_type_byte(EventType::Delete) == 0x03,
        event_type_byte(EventType::GetGroup) == 0x04,
        event_type_byte(EventType::Event) == 0x10,
        event_type_byte(EventType::Subscribe) == 0x11,
        event_type_byte(EventType::SyncPush) == 0x20,
        event_type_byte(EventType::SyncPull) == 0x21,
        event_type_byte(EventType::SyncInit) == 0x22,
        event_type_byte(EventType::SyncAck) == 0x23,
        event_type_byte(EventType::SyncSummary) == 0x24,
        event_type_byte(EventType::SyncTombstone) == 0x25,
        event_type_byte(EventType::Error) == 0xF0,
        event_type_byte(EventType::OkResponse) == 0xF1,
        event_type_of_byte(b) is Some <==> (0x01 <= b <= 0x04 || b == 0x10 || b == 0x11
            || 0x20 <= b <= 0x25 || b == 0xF0 || b == 0xF1),
        forall|t: EventType| event_type_of_byte(b) == Some(t) <==> event_type_byte(t) == b,
{
}

} // verus!
