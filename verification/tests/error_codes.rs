use eventrelay::error::{ErrorCategory, ErrorCode, ReplicashError};

const ALL: [ErrorCode; 16] = [
    ErrorCode::InvalidEventType,
    ErrorCode::MalformedTlv,
    ErrorCode::IncompleteMessage,
    ErrorCode::UnsupportedVersion,
    ErrorCode::KeyNotFound,
    ErrorCode::TtlExpired,
    ErrorCode::ValueTooLarge,
    ErrorCode::DiskWriteFailed,
    ErrorCode::ReadonlyMode,
    ErrorCode::MasterUnavailable,
    ErrorCode::SyncDenied,
    ErrorCode::InternalServerError,
    ErrorCode::ConfigInvalid,
    ErrorCode::ConnectionFailed,
    ErrorCode::SendFailed,
    ErrorCode::NotConnected,
];

#[test]
fn wire_bytes_of_codes() {
    let bytes: Vec<u8> = ALL.iter().map(|c| c.as_u8()).collect();
    assert_eq!(
        bytes,
        vec![0x01, 0x02, 0x03, 0x04, 0x11, 0x12, 0x13, 0x14, 0x21, 0x22, 0x23, 0x31, 0x32, 0x41, 0x42, 0x43]
    );
}

#[test]
fn code_byte_roundtrip() {
    for c in ALL {
        assert_eq!(ErrorCode::from_u8(c.as_u8()), Some(c));
    }
    for b in 0..=255u8 {
        if let Some(c) = ErrorCode::from_u8(b) {
            assert_eq!(c.as_u8(), b);
        }
    }
    assert_eq!(ErrorCode::from_u8(0x00), None);
    assert_eq!(ErrorCode::from_u8(0x05), None);
    assert_eq!(ErrorCode::from_u8(0x44), None);
}

#[test]
fn code_values_from_u16() {
    assert_eq!(ErrorCode::from_u16(0x0001), Some(ErrorCode::InvalidEventType));
    assert_eq!(ErrorCode::from_u16(0x0104), Some(ErrorCode::DiskWriteFailed));
    assert_eq!(ErrorCode::from_u16(0x0203), Some(ErrorCode::SyncDenied));
    assert_eq!(ErrorCode::from_u16(0x0302), Some(ErrorCode::ConfigInvalid));
    assert_eq!(ErrorCode::from_u16(0x0403), Some(ErrorCode::NotConnected));
    assert_eq!(ErrorCode::from_u16(0x0011), None);
    assert_eq!(ErrorCode::from_u16(0x0105), None);
    assert_eq!(ErrorCode::from_u16(0xFFFF), None);
}

#[test]
fn categories_follow_code_groups() {
    assert_eq!(ErrorCode::MalformedTlv.category(), ErrorCategory::Protocol);
    assert_eq!(ErrorCode::KeyNotFound.category(), ErrorCategory::Application);
    assert_eq!(ErrorCode::TtlExpired.category(), ErrorCategory::Application);
    assert_eq!(ErrorCode::MasterUnavailable.category(), ErrorCategory::ClusterState);
    assert_eq!(ErrorCode::InternalServerError.category(), ErrorCategory::System);
    assert_eq!(ErrorCode::SendFailed.category(), ErrorCategory::Client);
}

#[test]
fn descriptions_and_names() {
    assert_eq!(ErrorCode::InvalidEventType.description(), "Unknown or invalid event type");
    assert_eq!(ErrorCode::NotConnected.description(), "Client is not connected");
    assert_eq!(ErrorCode::ReadonlyMode.description(), "System is in read-only mode");
    assert_eq!(ErrorCode::KeyNotFound.name(), "KEY_NOT_FOUND");
    assert_eq!(ErrorCode::MalformedTlv.to_display_string(), "MALFORMED_TLV (0x0002)");
    assert_eq!(ErrorCode::KeyNotFound.to_display_string(), "KEY_NOT_FOUND (0x0101)");
    assert_eq!(ErrorCode::NotConnected.to_display_string(), "NOT_CONNECTED (0x0403)");
}

#[test]
fn display_shows_the_sixteen_bit_value() {
    assert_eq!(ErrorCode::InvalidEventType.to_display_string(), "INVALID_EVENT_TYPE (0x0001)");
    assert_eq!(ErrorCode::SyncDenied.to_display_string(), "SYNC_DENIED (0x0203)");
    assert_eq!(ErrorCode::ConfigInvalid.to_display_string(), "CONFIG_INVALID (0x0302)");
    assert_eq!(ErrorCode::DiskWriteFailed.to_display_string(), "DISK_WRITE_FAILED (0x0104)");
}

#[test]
fn descriptions_are_present_and_distinct() {
    let all = [
        ErrorCode::InvalidEventType,
        ErrorCode::MalformedTlv,
        ErrorCode::IncompleteMessage,
        ErrorCode::UnsupportedVersion,
        ErrorCode::KeyNotFound,
        ErrorCode::TtlExpired,
        ErrorCode::ValueTooLarge,
        ErrorCode::DiskWriteFailed,
        ErrorCode::ReadonlyMode,
        ErrorCode::MasterUnavailable,
        ErrorCode::SyncDenied,
        ErrorCode::InternalServerError,
        ErrorCode::ConfigInvalid,
        ErrorCode::ConnectionFailed,
        ErrorCode::SendFailed,
        ErrorCode::NotConnected,
    ];
    for (i, a) in all.iter().enumerate() {
        assert!(!a.description().is_empty());
        for b in all.iter().skip(i + 1) {
            assert_ne!(a.description(), b.description());
        }
    }
}

#[test]
fn category_display() {
    assert_eq!(ErrorCategory::Protocol.to_display_string(), "Protocol");
    assert_eq!(ErrorCategory::ClusterState.to_display_string(), "Cluster/State");
    assert_eq!(ErrorCategory::Unknown.to_display_string(), "Unknown");
}

#[test]
fn standard_error_parts() {
    let e = ReplicashError::new(ErrorCode::TtlExpired, "key k expired".to_string());
    assert_eq!(e.code(), Some(ErrorCode::TtlExpired));
    assert_eq!(e.message(), "key k expired");
    assert_eq!(e.to_display_string(), "TTL_EXPIRED (0x0102): key k expired");
    assert_eq!(e.to_tlv_error(), (0x12, "key k expired".to_string()));
}

#[test]
fn other_errors_show_their_kind() {
    let e = ReplicashError::Config("bad port".to_string());
    assert_eq!(e.code(), None);
    assert_eq!(e.message(), "Config error: bad port");
    assert_eq!(e.to_tlv_error(), (0x31, "Config error: bad port".to_string()));

    let e: ReplicashError = "boom".into();
    assert_eq!(e.message(), "Unknown error: boom");
    let e: ReplicashError = String::from("bang").into();
    assert_eq!(e.to_display_string(), "Unknown error: bang");
}

#[test]
fn io_and_json_errors_are_wrapped() {
    let io = std::io::Error::new(std::io::ErrorKind::Other, "disk gone");
    let e: ReplicashError = io.into();
    assert_eq!(e.code(), None);
    assert_eq!(e.message(), "I/O error: disk gone");
    assert_eq!(e.to_tlv_error().0, 0x31);

    let json = serde_json::from_str::<u32>("x").unwrap_err();
    let text = json.to_string();
    let e: ReplicashError = json.into();
    assert_eq!(e.message(), format!("Serialization error: {}", text));
}
