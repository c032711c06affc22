//! Error codes and the error type of the relay.
//!
//! Each code has a 16-bit value whose high byte is its category and whose low
//! byte numbers it inside the category. On the wire a code travels as one
//! byte: the category in the high nibble and the number in the low nibble.

use vstd::prelude::*;
use crate::text::{hex4, push_hex2};

verus! {

/// An error code of the protocol.
#[derive(Debug, Clone, Copy, PartialEq, Eq, Hash, Structural)]
pub enum ErrorCode {
    // Protocol errors (0x0001-0x0100)
    InvalidEventType,
    MalformedTlv,
    IncompleteMessage,
    UnsupportedVersion,
    // Application errors (0x0101-0x0200)
    KeyNotFound,
    TtlExpired,
    ValueTooLarge,
    DiskWriteFailed,
    // Cluster/State errors (0x0201-0x0300)
    ReadonlyMode,
    MasterUnavailable,
    SyncDenied,
    // System errors (0x0301-0x0400)
    InternalServerError,
    ConfigInvalid,
    // Client errors (0x0401-0x0500)
    ConnectionFailed,
    SendFailed,
    NotConnected,
}

/// The category of an error code.
#[derive(Debug, Clone, Copy, PartialEq, Eq, Hash, Structural)]
pub enum ErrorCategory {
    Protocol,
    Application,
    ClusterState,
    System,
    Client,
    Unknown,
}

/// The 16-bit value of a code.
pub open spec fn code_value(c: ErrorCode) -> u16 {
    match c {
        ErrorCode::InvalidEventType => 0x0001,
        ErrorCode::MalformedTlv => 0x0002,
        ErrorCode::IncompleteMessage => 0x0003,
        ErrorCode::UnsupportedVersion => 0x0004,
        ErrorCode::KeyNotFound => 0x0101,
        ErrorCode::TtlExpired => 0x0102,
        ErrorCode::ValueTooLarge => 0x0103,
        ErrorCode::DiskWriteFailed => 0x0104,
        ErrorCode::ReadonlyMode => 0x0201,
        ErrorCode::MasterUnavailable => 0x0202,
        ErrorCode::SyncDenied => 0x0203,
        ErrorCode::InternalServerError => 0x0301,
        ErrorCode::ConfigInvalid => 0x0302,
        ErrorCode::ConnectionFailed => 0x0401,
        ErrorCode::SendFailed => 0x0402,
        ErrorCode::NotConnected => 0x0403,
    }
}

/// The one-byte wire value of a code: category nibble, then number nibble.
pub open spec fn wire_byte(c: ErrorCode) -> u8 {
    ((code_value(c) / 256) * 16 + code_value(c) % 256) as u8
}

/// The category of a one-byte wire value.
pub open spec fn category_of_byte(b: u8) -> ErrorCategory {
    if 0x01 <= b <= 0x10 {
        ErrorCategory::Protocol
    } else if 0x11 <= b <= 0x20 {
        ErrorCategory::Application
    } else if 0x21 <= b <= 0x30 {
        ErrorCategory::ClusterState
    } else if 0x31 <= b <= 0x40 {
        ErrorCategory::System
    } else if 0x41 <= b <= 0x50 {
        ErrorCategory::Client
    } else {
        ErrorCategory::Unknown
    }
}

/// The code whose wire byte is `b`, if there is one.
pub open spec fn code_of_byte(b: u8) -> Option<ErrorCode> {
    if b == 0x01 { Some(ErrorCode::InvalidEventType) }
    else if b == 0x02 { Some(ErrorCode::MalformedTlv) }
    else if b == 0x03 { Some(ErrorCode::IncompleteMessage) }
    else if b == 0x04 { Some(ErrorCode::UnsupportedVersion) }
    else if b == 0x11 { Some(ErrorCode::KeyNotFound) }
    else if b == 0x12 { Some(ErrorCode::TtlExpired) }
    else if b == 0x13 { Some(ErrorCode::ValueTooLarge) }
    else if b == 0x14 { Some(ErrorCode::DiskWriteFailed) }
    else if b == 0x21 { Some(ErrorCode::ReadonlyMode) }
    else if b == 0x22 { Some(ErrorCode::MasterUnavailable) }
    else if b == 0x23 { Some(ErrorCode::SyncDenied) }
    else if b == 0x31 { Some(ErrorCode::InternalServerError) }
    else if b == 0x32 { Some(ErrorCode::ConfigInvalid) }
    else if b == 0x41 { Some(ErrorCode::ConnectionFailed) }
    else if b == 0x42 { Some(ErrorCode::SendFailed) }
    else if b == 0x43 { Some(ErrorCode::NotConnected) }
    else { None }
}

impl ErrorCode {
    /// Get the error code as a u8 (its wire byte).
    pub fn as_u8(&self) -> (b: u8)
        ensures
            b == wire_byte(*self),
    {
        match self {
            ErrorCode::InvalidEventType => 0x01,
            ErrorCode::MalformedTlv => 0x02,
            ErrorCode::IncompleteMessage => 0x03,
            ErrorCode::UnsupportedVersion => 0x04,
            ErrorCode::KeyNotFound => 0x11,
            ErrorCode::TtlExpired => 0x12,
            ErrorCode::ValueTooLarge => 0x13,
            ErrorCode::DiskWriteFailed => 0x14,
            ErrorCode::ReadonlyMode => 0x21,
            ErrorCode::MasterUnavailable => 0x22,
            ErrorCode::SyncDenied => 0x23,
            ErrorCode::InternalServerError => 0x31,
            ErrorCode::ConfigInvalid => 0x32,
            ErrorCode::ConnectionFailed => 0x41,
            ErrorCode::SendFailed => 0x42,
            ErrorCode::NotConnected => 0x43,
        }
    }

    /// Get the error code category.
    pub fn category(&self) -> (c: ErrorCategory)
        ensures
            c == category_of_byte(wire_byte(*self)),
    {
        let b = self.as_u8();
        if 0x01 <= b && b <= 0x10 {
            ErrorCategory::Protocol
        } else if 0x11 <= b && b <= 0x20 {
            ErrorCategory::Application
        } else if 0x21 <= b && b <= 0x30 {
            ErrorCategory::ClusterState
        } else if 0x31 <= b && b <= 0x40 {
            ErrorCategory::System
        } else if 0x41 <= b && b <= 0x50 {
            ErrorCategory::Client
        } else {
            ErrorCategory::Unknown
        }
    }

    /// Try to convert a u8 to an ErrorCode.
    pub fn from_u8(code: u8) -> (r: Option<ErrorCode>)
        ensures
            r == code_of_byte(code),
    {
        match code {
            0x01 => Some(ErrorCode::InvalidEventType),
            0x02 => Some(ErrorCode::MalformedTlv),
            0x03 => Some(ErrorCode::IncompleteMessage),
            0x04 => Some(ErrorCode::UnsupportedVersion),
            0x11 => Some(ErrorCode::KeyNotFound),
            0x12 => Some(ErrorCode::TtlExpired),
            0x13 => Some(ErrorCode::ValueTooLarge),
            0x14 => Some(ErrorCode::DiskWriteFailed),
            0x21 => Some(ErrorCode::ReadonlyMode),
            0x22 => Some(ErrorCode::MasterUnavailable),
            0x23 => Some(ErrorCode::SyncDenied),
            0x31 => Some(ErrorCode::InternalServerError),
            0x32 => Some(ErrorCode::ConfigInvalid),
            0x41 => Some(ErrorCode::ConnectionFailed),
            0x42 => Some(ErrorCode::SendFailed),
            0x43 => Some(ErrorCode::NotConnected),
            _ => None,
        }
    }

    /// Try to convert a u16 to an ErrorCode.
    pub fn from_u16(code: u16) -> (r: Option<ErrorCode>)
        ensures
            r matches Some(c) ==> code_value(c) == code,
            r is None ==> forall|c: ErrorCode| code_value(c) != code,
    {
        match code {
            0x0001 => Some(ErrorCode::InvalidEventType),
            0x0002 => Some(ErrorCode::MalformedTlv),
            0x0003 => Some(ErrorCode::IncompleteMessage),
            0x0004 => Some(ErrorCode::UnsupportedVersion),
            0x0101 => Some(ErrorCode::KeyNotFound),
            0x0102 => Some(ErrorCode::TtlExpired),
            0x0103 => Some(ErrorCode::ValueTooLarge),
            0x0104 => Some(ErrorCode::DiskWriteFailed),
            0x0201 => Some(ErrorCode::ReadonlyMode),
            0x0202 => Some(ErrorCode::MasterUnavailable),
            0x0203 => Some(ErrorCode::SyncDenied),
            0x0301 => Some(ErrorCode::InternalServerError),
            0x0302 => Some(ErrorCode::ConfigInvalid),
            0x0401 => Some(ErrorCode::ConnectionFailed),
            0x0402 => Some(ErrorCode::SendFailed),
            0x0403 => Some(ErrorCode::NotConnected),
            _ => None,
        }
    }
}


/// The human-readable description of a code.
pub open spec fn description_text(c: ErrorCode) -> Seq<char> {
    match c {
        ErrorCode::InvalidEventType => "Unknown or invalid event type"@,
        ErrorCode::MalformedTlv => "Malformed or inconsistent TLV field"@,
        ErrorCode::IncompleteMessage => "Incomplete or truncated message"@,
        ErrorCode::UnsupportedVersion => "Unsupported protocol version"@,
        ErrorCode::KeyNotFound => "Key not found in cache"@,
        ErrorCode::TtlExpired => "TTL expired for key"@,
        ErrorCode::ValueTooLarge => "Value size exceeds maximum"@,
        ErrorCode::DiskWriteFailed => "Failed to write to disk"@,
        ErrorCode::ReadonlyMode => "System is in read-only mode"@,
        ErrorCode::MasterUnavailable => "Master node is unavailable"@,
        ErrorCode::SyncDenied => "Synchronization denied"@,
        ErrorCode::InternalServerError => "Unexpected server error"@,
        ErrorCode::ConfigInvalid => "Invalid configuration"@,
        ErrorCode::ConnectionFailed => "Failed to connect to server"@,
        ErrorCode::SendFailed => "Failed to send message"@,
        ErrorCode::NotConnected => "Client is not connected"@,
    }
}

/// The upper-case name of a code.
pub open spec fn name_text(c: ErrorCode) -> Seq<char> {
    match c {
        ErrorCode::InvalidEventType => "INVALID_EVENT_TYPE"@,
        ErrorCode::MalformedTlv => "MALFORMED_TLV"@,
        ErrorCode::IncompleteMessage => "INCOMPLETE_MESSAGE"@,
        ErrorCode::UnsupportedVersion => "UNSUPPORTED_VERSION"@,
        ErrorCode::KeyNotFound => "KEY_NOT_FOUND"@,
        ErrorCode::TtlExpired => "TTL_EXPIRED"@,
        ErrorCode::ValueTooLarge => "VALUE_TOO_LARGE"@,
        ErrorCode::DiskWriteFailed => "DISK_WRITE_FAILED"@,
        ErrorCode::ReadonlyMode => "READONLY_MODE"@,
        ErrorCode::MasterUnavailable => "MASTER_UNAVAILABLE"@,
        ErrorCode::SyncDenied => "SYNC_DENIED"@,
        ErrorCode::InternalServerError => "INTERNAL_SERVER_ERROR"@,
        ErrorCode::ConfigInvalid => "CONFIG_INVALID"@,
        ErrorCode::ConnectionFailed => "CONNECTION_FAILED"@,
        ErrorCode::SendFailed => "SEND_FAILED"@,
        ErrorCode::NotConnected => "NOT_CONNECTED"@,
    }
}

/// How a code is shown: its name and its 16-bit value as four hexadecimal digits.
pub open spec fn code_text(c: ErrorCode) -> Seq<char> {
    name_text(c) + " (0x"@ + hex4(code_value(c)) + ")"@
}

/// How a category is shown.
pub open spec fn category_text(c: ErrorCategory) -> Seq<char> {
    match c {
        ErrorCategory::Protocol => "Protocol"@,
        ErrorCategory::Application => "Application"@,
        ErrorCategory::ClusterState => "Cluster/State"@,
        ErrorCategory::System => "System"@,
        ErrorCategory::Client => "Client"@,
        ErrorCategory::Unknown => "Unknown"@,
    }
}

impl ErrorCode {
    /// Get a human-readable description of the error code.
    pub fn description(&self) -> (s: &'static str)
        ensures
            s@ == description_text(*self),
    {
        match self {
            ErrorCode::InvalidEventType => "Unknown or invalid event type",
            ErrorCode::MalformedTlv => "Malformed or inconsistent TLV field",
            ErrorCode::IncompleteMessage => "Incomplete or truncated message",
            ErrorCode::UnsupportedVersion => "Unsupported protocol version",
            ErrorCode::KeyNotFound => "Key not found in cache",
            ErrorCode::TtlExpired => "TTL expired for key",
            ErrorCode::ValueTooLarge => "Value size exceeds maximum",
            ErrorCode::DiskWriteFailed => "Failed to write to disk",
            ErrorCode::ReadonlyMode => "System is in read-only mode",
            ErrorCode::MasterUnavailable => "Master node is unavailable",
            ErrorCode::SyncDenied => "Synchronization denied",
            ErrorCode::InternalServerError => "Unexpected server error",
            ErrorCode::ConfigInvalid => "Invalid configuration",
            ErrorCode::ConnectionFailed => "Failed to connect to server",
            ErrorCode::SendFailed => "Failed to send message",
            ErrorCode::NotConnected => "Client is not connected",
        }
    }

    /// The upper-case name of the code.
    pub fn name(&self) -> (s: &'static str)
        ensures
            s@ == name_text(*self),
    {
        match self {
            ErrorCode::InvalidEventType => "INVALID_EVENT_TYPE",
            ErrorCode::MalformedTlv => "MALFORMED_TLV",
            ErrorCode::IncompleteMessage => "INCOMPLETE_MESSAGE",
            ErrorCode::UnsupportedVersion => "UNSUPPORTED_VERSION",
            ErrorCode::KeyNotFound => "KEY_NOT_FOUND",
            ErrorCode::TtlExpired => "TTL_EXPIRED",
            ErrorCode::ValueTooLarge => "VALUE_TOO_LARGE",
            ErrorCode::DiskWriteFailed => "DISK_WRITE_FAILED",
            ErrorCode::ReadonlyMode => "READONLY_MODE",
            ErrorCode::MasterUnavailable => "MASTER_UNAVAILABLE",
            ErrorCode::SyncDenied => "SYNC_DENIED",
            ErrorCode::InternalServerError => "INTERNAL_SERVER_ERROR",
            ErrorCode::ConfigInvalid => "CONFIG_INVALID",
            ErrorCode::ConnectionFailed => "CONNECTION_FAILED",
            ErrorCode::SendFailed => "SEND_FAILED",
            ErrorCode::NotConnected => "NOT_CONNECTED",
        }
    }

    /// The code as it is shown, such as `MALFORMED_TLV (0x0002)`.
    pub fn to_display_string(&self) -> (s: String)
        ensures
            s@ == code_text(*self),
    {
        // The wire byte carries the high byte of the value in its high
        // nibble and the low byte in its low nibble.
        let b = self.as_u8();
        proof {
            assert(code_value(*self) / 256 == b / 16 && code_value(*self) % 256 == b % 16);
        }
        let mut s = String::from_str(self.name());
        s.append(" (0x");
        push_hex2(&mut s, b / 16);
        push_hex2(&mut s, b % 16);
        s.append(")");
        s
    }
}

impl ErrorCategory {
    /// The category as it is shown.
    pub fn to_display_string(&self) -> (s: String)
        ensures
            s@ == category_text(*self),
    {
        let t: &str = match self {
            ErrorCategory::Protocol => "Protocol",
            ErrorCategory::Application => "Application",
            ErrorCategory::ClusterState => "Cluster/State",
            ErrorCategory::System => "System",
            ErrorCategory::Client => "Client",
            ErrorCategory::Unknown => "Unknown",
        };
        String::from_str(t)
    }
}

/// `std::io::Error`, carried inside [`ReplicashError::Io`].
#[verifier::external_type_specification]
#[verifier::external_body]
pub struct ExIoError(std::io::Error);

/// `serde_json::Error`, carried inside [`ReplicashError::Serialization`].
#[verifier::external_type_specification]
#[verifier::external_body]
pub struct ExJsonError(serde_json::Error);

/// Main error type of the relay.
#[derive(Debug)]
pub enum ReplicashError {
    Standard { code: ErrorCode, message: String },
    Io(std::io::Error),
    Config(String),
    Serialization(serde_json::Error),
    Other(String),
}

/// Result type alias for relay operations.
pub type Result<T> = core::result::Result<T, ReplicashError>;

/// `e` is the standard error with this code and message.
pub open spec fn is_standard_error(e: ReplicashError, code: ErrorCode, message: Seq<char>) -> bool {
    e matches ReplicashError::Standard { code: c, message: m } && c == code && m@ == message
}

/// `s` is how `e` is shown: the code and message for a standard error, and a
/// fixed prefix before the carried text for the others. What an I/O or JSON
/// error shows of itself is whatever its own `Display` writes.
pub open spec fn shows_as(e: &ReplicashError, s: Seq<char>) -> bool {
    match e {
        ReplicashError::Standard { code, message } => s == code_text(*code) + ": "@ + message@,
        ReplicashError::Io(inner) => exists|t: String|
            vstd::string::to_string_from_display_ensures::<std::io::Error>(inner, t)
                && s == "I/O error: "@ + t@,
        ReplicashError::Config(m) => s == "Config error: "@ + m@,
        ReplicashError::Serialization(inner) => exists|t: String|
            vstd::string::to_string_from_display_ensures::<serde_json::Error>(inner, t)
                && s == "Serialization error: "@ + t@,
        ReplicashError::Other(m) => s == "Unknown error: "@ + m@,
    }
}

impl ReplicashError {
    /// Create a new standard error with the given code and message.
    pub fn new(code: ErrorCode, message: String) -> (e: ReplicashError)
        ensures
            is_standard_error(e, code, message@),
    {
        ReplicashError::Standard { code, message }
    }

    /// Get the error code if this is a standard error.
    pub fn code(&self) -> (r: Option<ErrorCode>)
        ensures
            match self {
                ReplicashError::Standard { code, .. } => r == Some(*code),
                _ => r is None,
            },
    {
        match self {
            ReplicashError::Standard { code, .. } => Some(*code),
            _ => None,
        }
    }

    /// The error as it is shown, such as `MALFORMED_TLV (0x0002): Buffer too short`.
    pub fn to_display_string(&self) -> (s: String)
        ensures
            shows_as(self, s@),
    {
        match self {
            ReplicashError::Standard { code, message } => {
                let mut s = code.to_display_string();
                s.append(": ");
                s.append(message.as_str());
                s
            },
            ReplicashError::Io(inner) => {
                let t = inner.to_string();
                let mut s = String::from_str("I/O error: ");
                s.append(t.as_str());
                s
            },
            ReplicashError::Config(m) => {
                let mut s = String::from_str("Config error: ");
                s.append(m.as_str());
                s
            },
            ReplicashError::Serialization(inner) => {
                let t = inner.to_string();
                let mut s = String::from_str("Serialization error: ");
                s.append(t.as_str());
                s
            },
            ReplicashError::Other(m) => {
                let mut s = String::from_str("Unknown error: ");
                s.append(m.as_str());
                s
            },
        }
    }

    /// Get the error message: the message of a standard error, otherwise how
    /// the error is shown.
    pub fn message(&self) -> (s: String)
        ensures
            match self {
                ReplicashError::Standard { message, .. } => s@ == message@,
                _ => shows_as(self, s@),
            },
    {
        match self {
            ReplicashError::Standard { message, .. } => message.clone(),
            _ => self.to_display_string(),
        }
    }

    /// Convert to a TLV error representation (for protocol use): the wire
    /// byte of the code and the message.
    pub fn to_tlv_error(&self) -> (r: (u8, String))
        ensures
            match self {
                ReplicashError::Standard { code, message } => r.0 == wire_byte(*code) && r.1@ == message@,
                _ => r.0 == wire_byte(ErrorCode::InternalServerError) && shows_as(self, r.1@),
            },
    {
        match self {
            ReplicashError::Standard { code, message } => (code.as_u8(), message.clone()),
            _ => (ErrorCode::InternalServerError.as_u8(), self.to_display_string()),
        }
    }
}

impl From<String> for ReplicashError {
    fn from(message: String) -> (e: ReplicashError) {
        ReplicashError::Other(message)
    }
}

impl vstd::std_specs::convert::FromSpecImpl<String> for ReplicashError {
    open spec fn obeys_from_spec() -> bool {
        true
    }

    open spec fn from_spec(message: String) -> ReplicashError {
        ReplicashError::Other(message)
    }
}

impl<'a> From<&'a str> for ReplicashError {
    fn from(message: &'a str) -> (e: ReplicashError)
        ensures
            e matches ReplicashError::Other(m) && m@ == message@,
    {
        ReplicashError::Other(String::from_str(message))
    }
}

impl<'a> vstd::std_specs::convert::FromSpecImpl<&'a str> for ReplicashError {
    /// A text is copied into a new `String`, which no spec value names, so
    /// the conversion is described by the `ensures` of `from` alone.
    open spec fn obeys_from_spec() -> bool {
        false
    }

    open spec fn from_spec(message: &'a str) -> ReplicashError {
        arbitrary()
    }
}

impl From<std::io::Error> for ReplicashError {
    fn from(inner: std::io::Error) -> (e: ReplicashError) {
        ReplicashError::Io(inner)
    }
}

impl vstd::std_specs::convert::FromSpecImpl<std::io::Error> for ReplicashError {
    open spec fn obeys_from_spec() -> bool {
        true
    }

    open spec fn from_spec(inner: std::io::Error) -> ReplicashError {
        ReplicashError::Io(inner)
    }
}

impl From<serde_json::Error> for ReplicashError {
    fn from(inner: serde_json::Error) -> (e: ReplicashError) {
        ReplicashError::Serialization(inner)
    }
}

impl vstd::std_specs::convert::FromSpecImpl<serde_json::Error> for ReplicashError {
    open spec fn obeys_from_spec() -> bool {
        true
    }

    open spec fn from_spec(inner: serde_json::Error) -> ReplicashError {
        ReplicashError::Serialization(inner)
    }
}

/// The category that the 16-bit value of a code falls in.
pub open spec fn category_of_value(v: u16) -> ErrorCategory {
    if 0x0001 <= v <= 0x0100 {
        ErrorCategory::Protocol
    } else if 0x0101 <= v <= 0x0200 {
        ErrorCategory::Application
    } else if 0x0201 <= v <= 0x0300 {
        ErrorCategory::ClusterState
    } else if 0x0301 <= v <= 0x0400 {
        ErrorCategory::System
    } else if 0x0401 <= v <= 0x0500 {
        ErrorCategory::Client
    } else {
        ErrorCategory::Unknown
    }
}

/// Converting a code to a byte and back gives the code.
pub proof fn law_code_byte_roundtrip(c: ErrorCode)
    ensures
        code_of_byte(wire_byte(c)) == Some(c),
{
}

/// A byte that converts to a code is that code's byte.
pub proof fn law_code_byte_inverse(b: u8)
    ensures
        code_of_byte(b) matches Some(c) ==> wire_byte(c) == b,
{
}

/// Different codes have different 16-bit values.
pub proof fn law_code_value_injective(c: ErrorCode, d: ErrorCode)
    ensures
        code_value(c) == code_value(d) ==> c == d,
{
}

/// The category that `category` gives a code is the one its 16-bit value
/// falls in.
pub proof fn law_category_matches_value(c: ErrorCode)
    ensures
        category_of_byte(wire_byte(c)) == category_of_value(code_value(c)),
{
}

/// The length and the first letter of a code's description.
spec fn description_key(c: ErrorCode) -> (nat, char) {
    match c {
        ErrorCode::InvalidEventType => (29, 'U'),
        ErrorCode::MalformedTlv => (35, 'M'),
        ErrorCode::IncompleteMessage => (31, 'I'),
        ErrorCode::UnsupportedVersion => (28, 'U'),
        ErrorCode::KeyNotFound => (22, 'K'),
        ErrorCode::TtlExpired => (19, 'T'),
        ErrorCode::ValueTooLarge => (26, 'V'),
        ErrorCode::DiskWriteFailed => (23, 'F'),
        ErrorCode::ReadonlyMode => (27, 'S'),
        ErrorCode::MasterUnavailable => (26, 'M'),
        ErrorCode::SyncDenied => (22, 'S'),
        ErrorCode::InternalServerError => (23, 'U'),
        ErrorCode::ConfigInvalid => (21, 'I'),
        ErrorCode::ConnectionFailed => (27, 'F'),
        ErrorCode::SendFailed => (22, 'F'),
        ErrorCode::NotConnected => (23, 'C'),
    }
}

/// The description of `c` has the length and first letter that
/// `description_key` gives.
proof fn lemma_description_key(c: ErrorCode)
    ensures
        description_text(c).len() == description_key(c).0,
        description_text(c)[0] == description_key(c).1,
{
    match c {
        ErrorCode::InvalidEventType => { reveal_strlit("Unknown or invalid event type"); },
        ErrorCode::MalformedTlv => { reveal_strlit("Malformed or inconsistent TLV field"); },
        ErrorCode::IncompleteMessage => { reveal_strlit("Incomplete or truncated message"); },
        ErrorCode::UnsupportedVersion => { reveal_strlit("Unsupported protocol version"); },
        ErrorCode::KeyNotFound => { reveal_strlit("Key not found in cache"); },
        ErrorCode::TtlExpired => { reveal_strlit("TTL expired for key"); },
        ErrorCode::ValueTooLarge => { reveal_strlit("Value size exceeds maximum"); },
        ErrorCode::DiskWriteFailed => { reveal_strlit("Failed to write to disk"); },
        ErrorCode::ReadonlyMode => { reveal_strlit("System is in read-only mode"); },
        ErrorCode::MasterUnavailable => { reveal_strlit("Master node is unavailable"); },
        ErrorCode::SyncDenied => { reveal_strlit("Synchronization denied"); },
        ErrorCode::InternalServerError => { reveal_strlit("Unexpected server error"); },
        ErrorCode::ConfigInvalid => { reveal_strlit("Invalid configuration"); },
        ErrorCode::ConnectionFailed => { reveal_strlit("Failed to connect to server"); },
        ErrorCode::SendFailed => { reveal_strlit("Failed to send message"); },
        ErrorCode::NotConnected => { reveal_strlit("Client is not connected"); },
    }
}

/// Every code has a description, and no two codes share one.
pub proof fn law_descriptions_distinct(c: ErrorCode, d: ErrorCode)
    ensures
        description_text(c).len() > 0,
        c != d ==> description_text(c) != description_text(d),
{
    lemma_description_key(c);
    lemma_description_key(d);
}

} // verus!
