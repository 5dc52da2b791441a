//! The error taxonomy: every failure the library reports, the fixed table of
//! authenticator status codes, and the classification of errors.

use crate::text::{decimal, hex_byte, prefixed, push_decimal, push_hex_byte};
use crate::types::DeviceType;
use vstd::prelude::*;
use vstd::string::*;

verus! {

/// Result type used throughout the library.
pub type YKeyResult<T> = Result<T, YKeyError>;

/// Every failure the library reports.
#[derive(Debug)]
pub enum YKeyError {
    /// Device not found with the given identifier
    DeviceNotFound(String),
    /// Unsupported device type
    UnsupportedDevice(DeviceType),
    /// Device communication error
    CommunicationError(String),
    /// A status code reported by the authenticator, with its message
    CtapError { code: u8, message: String },
    /// Unexpected response from device
    UnexpectedResponse,
    /// Authentication failed
    AuthenticationFailed(String),
    /// Operation cancelled by user
    UserCancelled,
    /// Invalid PIN provided
    InvalidPin(String),
    /// Device is locked (too many PIN attempts)
    DeviceLocked,
    /// Device requires PIN verification
    PinRequired,
    /// Device requires user verification (touch/biometric)
    UserVerificationRequired,
    /// Credential not found
    CredentialNotFound(String),
    /// Invalid credential data
    InvalidCredential(String),
    /// Protocol version not supported
    UnsupportedProtocolVersion(String),
    /// Invalid request parameters
    InvalidParameters(String),
    /// Timeout occurred during operation
    Timeout { seconds: u64 },
    /// Permission denied (typically OS-level permissions)
    PermissionDenied(String),
    /// Device already in use by another process
    DeviceBusy(String),
}

/// What a [`YKeyError`] holds, with each string as its text.
pub enum YKeyErrorView {
    DeviceNotFound(Seq<char>),
    UnsupportedDevice(DeviceType),
    CommunicationError(Seq<char>),
    CtapError { code: u8, message: Seq<char> },
    UnexpectedResponse,
    AuthenticationFailed(Seq<char>),
    UserCancelled,
    InvalidPin(Seq<char>),
    DeviceLocked,
    PinRequired,
    UserVerificationRequired,
    CredentialNotFound(Seq<char>),
    InvalidCredential(Seq<char>),
    UnsupportedProtocolVersion(Seq<char>),
    InvalidParameters(Seq<char>),
    Timeout { seconds: u64 },
    PermissionDenied(Seq<char>),
    DeviceBusy(Seq<char>),
}

impl View for YKeyError {
    type V = YKeyErrorView;

    open spec fn view(&self) -> YKeyErrorView {
        match *self {
            YKeyError::DeviceNotFound(s) => YKeyErrorView::DeviceNotFound(s@),
            YKeyError::UnsupportedDevice(t) => YKeyErrorView::UnsupportedDevice(t),
            YKeyError::CommunicationError(s) => YKeyErrorView::CommunicationError(s@),
            YKeyError::CtapError { code, message } => YKeyErrorView::CtapError {
                code,
                message: message@,
            },
            YKeyError::UnexpectedResponse => YKeyErrorView::UnexpectedResponse,
            YKeyError::AuthenticationFailed(s) => YKeyErrorView::AuthenticationFailed(s@),
            YKeyError::UserCancelled => YKeyErrorView::UserCancelled,
            YKeyError::InvalidPin(s) => YKeyErrorView::InvalidPin(s@),
            YKeyError::DeviceLocked => YKeyErrorView::DeviceLocked,
            YKeyError::PinRequired => YKeyErrorView::PinRequired,
            YKeyError::UserVerificationRequired => YKeyErrorView::UserVerificationRequired,
            YKeyError::CredentialNotFound(s) => YKeyErrorView::CredentialNotFound(s@),
            YKeyError::InvalidCredential(s) => YKeyErrorView::InvalidCredential(s@),
            YKeyError::UnsupportedProtocolVersion(s) => YKeyErrorView::UnsupportedProtocolVersion(
                s@,
            ),
            YKeyError::InvalidParameters(s) => YKeyErrorView::InvalidParameters(s@),
            YKeyError::Timeout { seconds } => YKeyErrorView::Timeout { seconds },
            YKeyError::PermissionDenied(s) => YKeyErrorView::PermissionDenied(s@),
            YKeyError::DeviceBusy(s) => YKeyErrorView::DeviceBusy(s@),
        }
    }
}

/// Status code: channel busy.
pub const CTAP_CHANNEL_BUSY: u8 = 0x06;

/// Status code: processing.
pub const CTAP_PROCESSING: u8 = 0x16;

/// Status code: PIN blocked.
pub const CTAP_PIN_BLOCKED: u8 = 0x26;

/// Status code: PIN required.
pub const CTAP_PIN_REQUIRED: u8 = 0x2A;

/// Status code: user presence required.
pub const CTAP_UP_REQUIRED: u8 = 0x2F;

/// The message of a status code that the table defines.
pub open spec fn defined_message(code: u8) -> Option<Seq<char>> {
    match code {
        0x01 => Some("Invalid command"@),
        0x02 => Some("Invalid parameter"@),
        0x03 => Some("Invalid length"@),
        0x04 => Some("Invalid sequence"@),
        0x05 => Some("Message timeout"@),
        0x06 => Some("Channel busy"@),
        0x0A => Some("Lock required"@),
        0x0B => Some("Invalid channel"@),
        0x10 => Some("CBOR unexpected type"@),
        0x11 => Some("Invalid CBOR"@),
        0x12 => Some("Missing parameter"@),
        0x13 => Some("Limit exceeded"@),
        0x14 => Some("Unsupported extension"@),
        0x15 => Some("Credential excluded"@),
        0x16 => Some("Processing"@),
        0x17 => Some("Invalid credential"@),
        0x18 => Some("User action pending"@),
        0x19 => Some("Operation pending"@),
        0x1A => Some("No operations"@),
        0x1B => Some("Unsupported algorithm"@),
        0x1C => Some("Operation denied"@),
        0x1D => Some("Key store full"@),
        0x1E => Some("No operation pending"@),
        0x1F => Some("Unsupported option"@),
        0x20 => Some("Invalid option"@),
        0x21 => Some("Keep alive cancel"@),
        0x22 => Some("No credentials"@),
        0x23 => Some("User action timeout"@),
        0x24 => Some("Not allowed"@),
        0x25 => Some("PIN invalid"@),
        0x26 => Some("PIN blocked"@),
        0x27 => Some("PIN auth invalid"@),
        0x28 => Some("PIN auth blocked"@),
        0x29 => Some("PIN not set"@),
        0x2A => Some("PIN required"@),
        0x2B => Some("PIN policy violation"@),
        0x2C => Some("PIN token expired"@),
        0x2D => Some("Request too large"@),
        0x2E => Some("Action timeout"@),
        0x2F => Some("Up required"@),
        0x30 => Some("UV blocked"@),
        0x31 => Some("Integrity failure"@),
        0x32 => Some("Invalid subcommand"@),
        0x33 => Some("UV invalid"@),
        0x34 => Some("Unauthorized permission"@),
        _ => None,
    }
}

/// The message of any status code: the table's entry, or for a code that the
/// table does not define, a text that carries the raw byte.
pub open spec fn ctap_message(code: u8) -> Seq<char> {
    match defined_message(code) {
        Some(m) => m,
        None => "Unknown error code: "@ + hex_byte(code as int),
    }
}

/// The error that stands for a status code.
pub open spec fn ctap_error_view(code: u8) -> YKeyErrorView {
    YKeyErrorView::CtapError { code, message: ctap_message(code) }
}

/// Whether an error says that the device is locked.
pub open spec fn device_locked(e: YKeyErrorView) -> bool {
    e is DeviceLocked || (e matches YKeyErrorView::CtapError { code, .. } && code
        == CTAP_PIN_BLOCKED)
}

/// Whether an error says that a PIN is required.
pub open spec fn pin_required(e: YKeyErrorView) -> bool {
    e is PinRequired || (e matches YKeyErrorView::CtapError { code, .. } && code
        == CTAP_PIN_REQUIRED)
}

/// Whether an error says that user verification is required.
pub open spec fn user_verification_required(e: YKeyErrorView) -> bool {
    e is UserVerificationRequired || (e matches YKeyErrorView::CtapError { code, .. } && code
        == CTAP_UP_REQUIRED)
}

/// Whether an error is temporary, so that the operation may succeed when it
/// is tried again.
pub open spec fn retryable(e: YKeyErrorView) -> bool {
    e is DeviceBusy || e is Timeout || e is CommunicationError || (e matches YKeyErrorView::CtapError {
        code,
        ..
    } && (code == CTAP_CHANNEL_BUSY || code == CTAP_PROCESSING))
}

/// The text that an error is shown as.
pub open spec fn display_text(e: YKeyErrorView) -> Seq<char> {
    match e {
        YKeyErrorView::DeviceNotFound(s) => "Device not found: "@ + s,
        YKeyErrorView::UnsupportedDevice(t) => "Unsupported device type: "@ + t.name_text(),
        YKeyErrorView::CommunicationError(s) => "Device communication error: "@ + s,
        YKeyErrorView::CtapError { code, message } => "CTAP error code: "@ + hex_byte(code as int)
            + " - "@ + message,
        YKeyErrorView::UnexpectedResponse => "Unexpected response from device"@,
        YKeyErrorView::AuthenticationFailed(s) => "Authentication failed: "@ + s,
        YKeyErrorView::UserCancelled => "Operation cancelled by user"@,
        YKeyErrorView::InvalidPin(s) => "Invalid PIN: "@ + s,
        YKeyErrorView::DeviceLocked => "Device is locked"@,
        YKeyErrorView::PinRequired => "PIN verification required"@,
        YKeyErrorView::UserVerificationRequired => "User verification required"@,
        YKeyErrorView::CredentialNotFound(s) => "Credential not found: "@ + s,
        YKeyErrorView::InvalidCredential(s) => "Invalid credential data: "@ + s,
        YKeyErrorView::UnsupportedProtocolVersion(s) => "Unsupported protocol version: "@ + s,
        YKeyErrorView::InvalidParameters(s) => "Invalid request parameters: "@ + s,
        YKeyErrorView::Timeout { seconds } => "Operation timed out after "@ + decimal(
            seconds as nat,
        ) + " seconds"@,
        YKeyErrorView::PermissionDenied(s) => "Permission denied: "@ + s,
        YKeyErrorView::DeviceBusy(s) => "Device busy: "@ + s,
    }
}

fn defined_message_str(code: u8) -> (r: Option<&'static str>)
    ensures
        match r {
            Some(m) => defined_message(code) == Some(m@),
            None => defined_message(code) is None,
        },
{
    match code {
        0x01 => Some("Invalid command"),
        0x02 => Some("Invalid parameter"),
        0x03 => Some("Invalid length"),
        0x04 => Some("Invalid sequence"),
        0x05 => Some("Message timeout"),
        0x06 => Some("Channel busy"),
        0x0A => Some("Lock required"),
        0x0B => Some("Invalid channel"),
        0x10 => Some("CBOR unexpected type"),
        0x11 => Some("Invalid CBOR"),
        0x12 => Some("Missing parameter"),
        0x13 => Some("Limit exceeded"),
        0x14 => Some("Unsupported extension"),
        0x15 => Some("Credential excluded"),
        0x16 => Some("Processing"),
        0x17 => Some("Invalid credential"),
        0x18 => Some("User action pending"),
        0x19 => Some("Operation pending"),
        0x1A => Some("No operations"),
        0x1B => Some("Unsupported algorithm"),
        0x1C => Some("Operation denied"),
        0x1D => Some("Key store full"),
        0x1E => Some("No operation pending"),
        0x1F => Some("Unsupported option"),
        0x20 => Some("Invalid option"),
        0x21 => Some("Keep alive cancel"),
        0x22 => Some("No credentials"),
        0x23 => Some("User action timeout"),
        0x24 => Some("Not allowed"),
        0x25 => Some("PIN invalid"),
        0x26 => Some("PIN blocked"),
        0x27 => Some("PIN auth invalid"),
        0x28 => Some("PIN auth blocked"),
        0x29 => Some("PIN not set"),
        0x2A => Some("PIN required"),
        0x2B => Some("PIN policy violation"),
        0x2C => Some("PIN token expired"),
        0x2D => Some("Request too large"),
        0x2E => Some("Action timeout"),
        0x2F => Some("Up required"),
        0x30 => Some("UV blocked"),
        0x31 => Some("Integrity failure"),
        0x32 => Some("Invalid subcommand"),
        0x33 => Some("UV invalid"),
        0x34 => Some("Unauthorized permission"),
        _ => None,
    }
}

impl YKeyError {
    /// A communication error with the given message.
    pub fn communication(message: &str) -> (r: Self)
        ensures
            r@ == YKeyErrorView::CommunicationError(message@),
    {
        YKeyError::CommunicationError(String::from_str(message))
    }

    /// The error for a status code that the authenticator reported: the code
    /// itself and its message from the table.
    pub fn ctap_error(code: u8) -> (r: Self)
        ensures
            r@ == ctap_error_view(code),
    {
        let message = match defined_message_str(code) {
            Some(m) => String::from_str(m),
            None => {
                let mut text = String::from_str("Unknown error code: ");
                push_hex_byte(&mut text, code);
                text
            },
        };
        YKeyError::CtapError { code, message }
    }

    /// A timeout after the given number of seconds.
    pub fn timeout(seconds: u64) -> (r: Self)
        ensures
            r@ == (YKeyErrorView::Timeout { seconds }),
    {
        YKeyError::Timeout { seconds }
    }

    /// A failed authentication with the given reason.
    pub fn auth_failed(reason: &str) -> (r: Self)
        ensures
            r@ == YKeyErrorView::AuthenticationFailed(reason@),
    {
        YKeyError::AuthenticationFailed(String::from_str(reason))
    }

    /// A denied permission on the given resource.
    pub fn permission_denied(resource: &str) -> (r: Self)
        ensures
            r@ == YKeyErrorView::PermissionDenied(resource@),
    {
        YKeyError::PermissionDenied(String::from_str(resource))
    }

    /// Whether this error says that the device is locked.
    pub fn is_device_locked(&self) -> (r: bool)
        ensures
            r == device_locked(self@),
    {
        match self {
            YKeyError::DeviceLocked => true,
            YKeyError::CtapError { code, .. } => *code == CTAP_PIN_BLOCKED,
            _ => false,
        }
    }

    /// Whether this error says that a PIN is required.
    pub fn is_pin_required(&self) -> (r: bool)
        ensures
            r == pin_required(self@),
    {
        match self {
            YKeyError::PinRequired => true,
            YKeyError::CtapError { code, .. } => *code == CTAP_PIN_REQUIRED,
            _ => false,
        }
    }

    /// Whether this error says that user verification is required.
    pub fn is_user_verification_required(&self) -> (r: bool)
        ensures
            r == user_verification_required(self@),
    {
        match self {
            YKeyError::UserVerificationRequired => true,
            YKeyError::CtapError { code, .. } => *code == CTAP_UP_REQUIRED,
            _ => false,
        }
    }

    /// Whether this error is temporary, so that the operation may succeed
    /// when it is tried again.
    pub fn is_retryable(&self) -> (r: bool)
        ensures
            r == retryable(self@),
    {
        match self {
            YKeyError::DeviceBusy(_) => true,
            YKeyError::Timeout { .. } => true,
            YKeyError::CommunicationError(_) => true,
            YKeyError::CtapError { code, .. } => *code == CTAP_CHANNEL_BUSY || *code
                == CTAP_PROCESSING,
            _ => false,
        }
    }

    /// The text that this error is shown as.
    pub fn to_string(&self) -> (r: String)
        ensures
            r@ == display_text(self@),
    {
        match self {
            YKeyError::DeviceNotFound(s) => prefixed("Device not found: ", s.as_str()),
            YKeyError::UnsupportedDevice(t) => prefixed("Unsupported device type: ", t.name()),
            YKeyError::CommunicationError(s) => prefixed(
                "Device communication error: ",
                s.as_str(),
            ),
            YKeyError::CtapError { code, message } => {
                let mut out = String::from_str("CTAP error code: ");
                push_hex_byte(&mut out, *code);
                out.append(" - ");
                out.append(message.as_str());
                out
            },
            YKeyError::UnexpectedResponse => String::from_str("Unexpected response from device"),
            YKeyError::AuthenticationFailed(s) => prefixed("Authentication failed: ", s.as_str()),
            YKeyError::UserCancelled => String::from_str("Operation cancelled by user"),
            YKeyError::InvalidPin(s) => prefixed("Invalid PIN: ", s.as_str()),
            YKeyError::DeviceLocked => String::from_str("Device is locked"),
            YKeyError::PinRequired => String::from_str("PIN verification required"),
            YKeyError::UserVerificationRequired => String::from_str("User verification required"),
            YKeyError::CredentialNotFound(s) => prefixed("Credential not found: ", s.as_str()),
            YKeyError::InvalidCredential(s) => prefixed("Invalid credential data: ", s.as_str()),
            YKeyError::UnsupportedProtocolVersion(s) => prefixed(
                "Unsupported protocol version: ",
                s.as_str(),
            ),
            YKeyError::InvalidParameters(s) => prefixed("Invalid request parameters: ", s.as_str()),
            YKeyError::Timeout { seconds } => {
                let mut out = String::from_str("Operation timed out after ");
                push_decimal(&mut out, *seconds);
                out.append(" seconds");
                out
            },
            YKeyError::PermissionDenied(s) => prefixed("Permission denied: ", s.as_str()),
            YKeyError::DeviceBusy(s) => prefixed("Device busy: ", s.as_str()),
        }
    }
}

/// Each status code keeps its own byte and gets the message that the table
/// gives it; it is retryable exactly when it is channel-busy or processing,
/// asks for a PIN exactly when it is PIN-required, and reports a locked
/// device exactly when it is PIN-blocked.
pub proof fn lemma_status_code_classification(code: u8)
    ensures
        ctap_error_view(code) matches YKeyErrorView::CtapError { code: c, message: m } && c == code
            && m == ctap_message(code),
        defined_message(code) matches Some(m) ==> ctap_message(code) == m,
        retryable(ctap_error_view(code)) <==> code == 0x06 || code == 0x16,
        pin_required(ctap_error_view(code)) <==> code == 0x2A,
        device_locked(ctap_error_view(code)) <==> code == 0x26,
        user_verification_required(ctap_error_view(code)) <==> code == 0x2F,
{
}

} // verus!
