use eventrelay::error::ErrorCode;
use eventrelay::tlv::message::TLVMessage;
use eventrelay::tlv::types::{EventType, FieldType};

fn sample() -> TLVMessage {
    let mut msg = TLVMessage::new(EventType::SyncInit);
    msg.insert_field(FieldType::Key, b"server1".to_vec());
    msg.insert_field(FieldType::Value, vec![1, 2, 3]);
    msg
}

#[test]
fn encode_writes_header_and_fields() {
    let mut msg = TLVMessage::new(EventType::Event);
    msg.insert_field(FieldType::Key, b"news".to_vec());
    let bytes = msg.encode();
    assert_eq!(
        bytes,
        vec![0, 0, 0, 14, 0x10, 0x01, 0, 0, 0, 4, b'n', b'e', b'w', b's']
    );
}

#[test]
fn encode_empty_message() {
    assert_eq!(TLVMessage::new(EventType::OkResponse).encode(), vec![0, 0, 0, 5, 0xF1]);
}

#[test]
fn encode_long_value_length() {
    let mut msg = TLVMessage::new(EventType::SetValue);
    msg.insert_field(FieldType::Value, vec![7u8; 300]);
    let bytes = msg.encode();
    assert_eq!(bytes.len(), 310);
    assert_eq!(&bytes[0..4], &[0, 0, 1, 54]);
    assert_eq!(&bytes[5..10], &[0x02, 0, 0, 1, 44]);
}

#[test]
fn parse_gives_back_encoded_message() {
    let msg = sample();
    let parsed = TLVMessage::parse(&msg.encode()).unwrap();
    assert_eq!(parsed.event_type, EventType::SyncInit);
    assert_eq!(parsed.get_field(FieldType::Key), Some(&b"server1".to_vec()));
    assert_eq!(parsed.get_field(FieldType::Value), Some(&vec![1, 2, 3]));
    assert_eq!(parsed.get_field(FieldType::Ttl), None);
    assert_eq!(parsed.encode(), msg.encode());
}

#[test]
fn parse_roundtrip_beyond_inline_capacity() {
    let mut msg = TLVMessage::new(EventType::SyncSummary);
    for b in 1..=9u8 {
        msg.insert_field(FieldType::from_u8(b).unwrap(), vec![b; b as usize]);
    }
    let parsed = TLVMessage::parse(&msg.encode()).unwrap();
    for b in 1..=9u8 {
        assert_eq!(parsed.get_field(FieldType::from_u8(b).unwrap()), Some(&vec![b; b as usize]));
    }
    assert_eq!(parsed.encode(), msg.encode());
}

#[test]
fn parse_rejects_short_message() {
    let err = TLVMessage::parse(&[0, 0, 0, 4]).unwrap_err();
    assert_eq!(err.code(), Some(ErrorCode::MalformedTlv));
    assert_eq!(err.message(), "Message too short");
}

#[test]
fn parse_rejects_unknown_event_type() {
    let err = TLVMessage::parse(&[0, 0, 0, 5, 0x99]).unwrap_err();
    assert_eq!(err.code(), Some(ErrorCode::InvalidEventType));
    assert_eq!(err.message(), "Unknown event type: 0x99");
}

#[test]
fn parse_rejects_unknown_field_type() {
    let err = TLVMessage::parse(&[0, 0, 0, 10, 0x10, 0x0C, 0, 0, 0, 0]).unwrap_err();
    assert_eq!(err.code(), Some(ErrorCode::MalformedTlv));
    assert_eq!(err.message(), "Unknown field type: 0x0C");
}

#[test]
fn parse_rejects_incomplete_field() {
    let err = TLVMessage::parse(&[0, 0, 0, 12, 0x10, 0x01, 0, 0, 0, 5, b'a', b'b']).unwrap_err();
    assert_eq!(err.code(), Some(ErrorCode::MalformedTlv));
    assert_eq!(err.message(), "Incomplete TLV field");
}

#[test]
fn parse_ignores_short_tail_and_header_length() {
    let raw = [0, 0, 0, 99, 0x11, 0x01, 0, 0, 0, 1, b't', 0x02, 0, 0];
    let msg = TLVMessage::parse(&raw).unwrap();
    assert_eq!(msg.event_type, EventType::Subscribe);
    assert_eq!(msg.get_field(FieldType::Key), Some(&b"t".to_vec()));
    assert_eq!(msg.get_field(FieldType::Value), None);
}

#[test]
fn parse_keeps_last_of_repeated_field() {
    let raw = [
        0, 0, 0, 17, 0x10, 0x01, 0, 0, 0, 1, b'a', 0x01, 0, 0, 0, 1, b'b',
    ];
    let msg = TLVMessage::parse(&raw).unwrap();
    assert_eq!(msg.get_field(FieldType::Key), Some(&b"b".to_vec()));
    assert_eq!(msg.encode(), vec![0, 0, 0, 11, 0x10, 0x01, 0, 0, 0, 1, b'b']);
}

#[test]
fn insert_overwrites_in_place() {
    let mut msg = sample();
    msg.insert_field(FieldType::Key, b"server2".to_vec());
    assert_eq!(msg.get_field(FieldType::Key), Some(&b"server2".to_vec()));
    assert_eq!(msg.get_field(FieldType::Value), Some(&vec![1, 2, 3]));
    let bytes = msg.encode();
    assert_eq!(bytes[5], 0x01);
    assert_eq!(&bytes[10..17], b"server2");
}

#[test]
fn clone_keeps_fields() {
    let msg = sample();
    let copy = msg.clone();
    assert_eq!(copy.event_type, msg.event_type);
    assert_eq!(copy.encode(), msg.encode());
}

#[test]
fn extract_event_from_header() {
    assert_eq!(TLVMessage::extract_event(&sample().encode()).unwrap(), EventType::SyncInit);
    let err = TLVMessage::extract_event(&[0, 0, 0]).unwrap_err();
    assert_eq!(err.message(), "Buffer too short");
    let err = TLVMessage::extract_event(&[0, 0, 0, 5, 0x30]).unwrap_err();
    assert_eq!(err.code(), Some(ErrorCode::InvalidEventType));
}

#[test]
fn extract_field_finds_value() {
    let bytes = sample().encode();
    assert_eq!(TLVMessage::extract_field(&bytes, FieldType::Key).unwrap(), b"server1");
    assert_eq!(TLVMessage::extract_field(&bytes, FieldType::Value).unwrap(), &[1, 2, 3]);
    assert_eq!(TLVMessage::extract_field(&bytes, FieldType::Group).unwrap(), &[] as &[u8]);
}

#[test]
fn extract_field_reports_malformed_buffers() {
    let err = TLVMessage::extract_field(&[0, 0], FieldType::Key).unwrap_err();
    assert_eq!(err.message(), "Buffer too short");
    let err = TLVMessage::extract_field(&[0, 0, 0, 10, 0x10, 0x0F, 0, 0, 0, 0], FieldType::Key).unwrap_err();
    assert_eq!(err.code(), Some(ErrorCode::MalformedTlv));
    assert_eq!(err.message(), "Invalid field type");
    let err = TLVMessage::extract_field(&[0, 0, 0, 11, 0x10, 0x02, 0, 0, 0, 9, 1], FieldType::Key).unwrap_err();
    assert_eq!(err.message(), "Field data too short");
}

#[test]
fn extract_field_takes_first_occurrence() {
    let raw = [
        0, 0, 0, 17, 0x10, 0x01, 0, 0, 0, 1, b'a', 0x01, 0, 0, 0, 1, b'b',
    ];
    assert_eq!(TLVMessage::extract_field(&raw, FieldType::Key).unwrap(), b"a");
}
