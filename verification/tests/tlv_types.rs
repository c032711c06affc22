use eventrelay::error::ErrorCode;
use eventrelay::tlv::types::{EventType, FieldType};

#[test]
fn event_type_bytes_roundtrip() {
    let all = [
        (EventType::SetValue, 0x01),
        (EventType::Get, 0x02),
        (EventType::Delete, 0x03),
        (EventType::GetGroup, 0x04),
        (EventType::Event, 0x10),
        (EventType::Subscribe, 0x11),
        (EventType::SyncPush, 0x20),
        (EventType::SyncPull, 0x21),
        (EventType::SyncInit, 0x22),
        (EventType::SyncAck, 0x23),
        (EventType::SyncSummary, 0x24),
        (EventType::SyncTombstone, 0x25),
        (EventType::Error, 0xF0),
        (EventType::OkResponse, 0xF1),
    ];
    for (t, b) in all {
        assert_eq!(t.as_u8(), b);
        assert_eq!(EventType::from_u8(b).unwrap(), t);
    }
}

#[test]
fn unknown_event_type_is_reported_in_hex() {
    let e = EventType::from_u8(0xAB).unwrap_err();
    assert_eq!(e.code(), Some(ErrorCode::InvalidEventType));
    assert_eq!(e.message(), "Unknown event type: 0xAB");
    let e = EventType::from_u8(0x05).unwrap_err();
    assert_eq!(e.message(), "Unknown event type: 0x05");
}

#[test]
fn field_type_bytes_roundtrip() {
    for b in 1..=9u8 {
        let t = FieldType::from_u8(b).unwrap();
        assert_eq!(t.as_u8(), b);
    }
    assert_eq!(FieldType::from_u8(7).unwrap(), FieldType::Version);
}

#[test]
fn unknown_field_type_is_malformed() {
    let e = FieldType::from_u8(0x0A).unwrap_err();
    assert_eq!(e.code(), Some(ErrorCode::MalformedTlv));
    assert_eq!(e.message(), "Unknown field type: 0x0A");
    let e = FieldType::from_u8(0).unwrap_err();
    assert_eq!(e.message(), "Unknown field type: 0x00");
}
