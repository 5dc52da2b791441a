use ykey::{DeviceType, YKeyError};

#[test]
fn test_ctap_error_messages() {
    let error = YKeyError::ctap_error(0x25);
    assert!(error.to_string().contains("PIN invalid"));

    let error = YKeyError::ctap_error(0x26);
    assert!(error.to_string().contains("PIN blocked"));
    assert!(error.is_device_locked());
}

#[test]
fn test_error_classification() {
    let pin_error = YKeyError::ctap_error(0x2A);
    assert!(pin_error.is_pin_required());
    assert!(!pin_error.is_device_locked());

    let busy_error = YKeyError::DeviceBusy("test".to_string());
    assert!(busy_error.is_retryable());
    assert!(!busy_error.is_pin_required());
}

#[test]
fn test_timeout_error() {
    let timeout = YKeyError::timeout(30);
    assert!(timeout.is_retryable());
    assert!(timeout.to_string().contains("30 seconds"));
}

#[test]
fn test_communication_error() {
    let comm_error = YKeyError::communication("Failed to send data");
    assert!(comm_error.is_retryable());
    assert!(comm_error.to_string().contains("Failed to send data"));
}

fn table() -> Vec<(u8, &'static str)> {
    vec![
        (0x01, "Invalid command"),
        (0x02, "Invalid parameter"),
        (0x03, "Invalid length"),
        (0x04, "Invalid sequence"),
        (0x05, "Message timeout"),
        (0x06, "Channel busy"),
        (0x0A, "Lock required"),
        (0x0B, "Invalid channel"),
        (0x10, "CBOR unexpected type"),
        (0x11, "Invalid CBOR"),
        (0x12, "Missing parameter"),
        (0x13, "Limit exceeded"),
        (0x14, "Unsupported extension"),
        (0x15, "Credential excluded"),
        (0x16, "Processing"),
        (0x17, "Invalid credential"),
        (0x18, "User action pending"),
        (0x19, "Operation pending"),
        (0x1A, "No operations"),
        (0x1B, "Unsupported algorithm"),
        (0x1C, "Operation denied"),
        (0x1D, "Key store full"),
        (0x1E, "No operation pending"),
        (0x1F, "Unsupported option"),
        (0x20, "Invalid option"),
        (0x21, "Keep alive cancel"),
        (0x22, "No credentials"),
        (0x23, "User action timeout"),
        (0x24, "Not allowed"),
        (0x25, "PIN invalid"),
        (0x26, "PIN blocked"),
        (0x27, "PIN auth invalid"),
        (0x28, "PIN auth blocked"),
        (0x29, "PIN not set"),
        (0x2A, "PIN required"),
        (0x2B, "PIN policy violation"),
        (0x2C, "PIN token expired"),
        (0x2D, "Request too large"),
        (0x2E, "Action timeout"),
        (0x2F, "Up required"),
        (0x30, "UV blocked"),
        (0x31, "Integrity failure"),
        (0x32, "Invalid subcommand"),
        (0x33, "UV invalid"),
        (0x34, "Unauthorized permission"),
    ]
}

#[test]
fn every_defined_code_has_its_message() {
    for (code, message) in table() {
        match YKeyError::ctap_error(code) {
            YKeyError::CtapError { code: c, message: m } => {
                assert_eq!(c, code);
                assert_eq!(m, message);
            }
            other => panic!("not a CTAP error: {:?}", other),
        }
    }
}

#[test]
fn every_other_code_carries_the_raw_byte() {
    let defined: Vec<u8> = table().iter().map(|(c, _)| *c).collect();
    for code in 0u8..=255 {
        if defined.contains(&code) {
            continue;
        }
        match YKeyError::ctap_error(code) {
            YKeyError::CtapError { code: c, message: m } => {
                assert_eq!(c, code);
                assert_eq!(m, format!("Unknown error code: {:#04x}", code));
            }
            other => panic!("not a CTAP error: {:?}", other),
        }
    }
}

#[test]
fn unknown_code_message_is_exact() {
    match YKeyError::ctap_error(0xFF) {
        YKeyError::CtapError { code, message } => {
            assert_eq!(code, 0xFF);
            assert_eq!(message, "Unknown error code: 0xff");
        }
        other => panic!("not a CTAP error: {:?}", other),
    }
    match YKeyError::ctap_error(0x00) {
        YKeyError::CtapError { message, .. } => assert_eq!(message, "Unknown error code: 0x00"),
        other => panic!("not a CTAP error: {:?}", other),
    }
}

#[test]
fn status_codes_classify_as_the_table_says() {
    for code in 0u8..=255 {
        let error = YKeyError::ctap_error(code);
        assert_eq!(error.is_retryable(), code == 0x06 || code == 0x16);
        assert_eq!(error.is_pin_required(), code == 0x2A);
        assert_eq!(error.is_device_locked(), code == 0x26);
        assert_eq!(error.is_user_verification_required(), code == 0x2F);
    }
}

#[test]
fn plain_variants_classify() {
    assert!(YKeyError::DeviceLocked.is_device_locked());
    assert!(YKeyError::PinRequired.is_pin_required());
    assert!(YKeyError::UserVerificationRequired.is_user_verification_required());
    assert!(YKeyError::DeviceBusy("x".to_string()).is_retryable());
    assert!(YKeyError::Timeout { seconds: 1 }.is_retryable());
    assert!(YKeyError::CommunicationError("x".to_string()).is_retryable());

    assert!(!YKeyError::UnexpectedResponse.is_retryable());
    assert!(!YKeyError::UserCancelled.is_retryable());
    assert!(!YKeyError::InvalidPin("x".to_string()).is_retryable());
    assert!(!YKeyError::PinRequired.is_device_locked());
    assert!(!YKeyError::DeviceLocked.is_pin_required());
    assert!(!YKeyError::PinRequired.is_user_verification_required());
    assert!(!YKeyError::DeviceNotFound("x".to_string()).is_retryable());
}

#[test]
fn constructors_build_their_variants() {
    assert!(matches!(YKeyError::communication("m"), YKeyError::CommunicationError(m) if m == "m"));
    assert!(matches!(YKeyError::timeout(7), YKeyError::Timeout { seconds: 7 }));
    assert!(matches!(YKeyError::auth_failed("r"), YKeyError::AuthenticationFailed(r) if r == "r"));
    assert!(matches!(YKeyError::permission_denied("p"), YKeyError::PermissionDenied(p) if p == "p"));
}

#[test]
fn every_variant_is_shown_as_its_text() {
    let s = |t: &str| t.to_string();
    assert_eq!(YKeyError::DeviceNotFound(s("abc")).to_string(), "Device not found: abc");
    assert_eq!(
        YKeyError::UnsupportedDevice(DeviceType::Nitrokey).to_string(),
        "Unsupported device type: Nitrokey"
    );
    assert_eq!(
        YKeyError::CommunicationError(s("down")).to_string(),
        "Device communication error: down"
    );
    assert_eq!(
        YKeyError::ctap_error(0x25).to_string(),
        "CTAP error code: 0x25 - PIN invalid"
    );
    assert_eq!(
        YKeyError::ctap_error(0x05).to_string(),
        "CTAP error code: 0x05 - Message timeout"
    );
    assert_eq!(
        YKeyError::ctap_error(0xAB).to_string(),
        "CTAP error code: 0xab - Unknown error code: 0xab"
    );
    assert_eq!(YKeyError::UnexpectedResponse.to_string(), "Unexpected response from device");
    assert_eq!(YKeyError::AuthenticationFailed(s("no")).to_string(), "Authentication failed: no");
    assert_eq!(YKeyError::UserCancelled.to_string(), "Operation cancelled by user");
    assert_eq!(YKeyError::InvalidPin(s("short")).to_string(), "Invalid PIN: short");
    assert_eq!(YKeyError::DeviceLocked.to_string(), "Device is locked");
    assert_eq!(YKeyError::PinRequired.to_string(), "PIN verification required");
    assert_eq!(YKeyError::UserVerificationRequired.to_string(), "User verification required");
    assert_eq!(YKeyError::CredentialNotFound(s("c1")).to_string(), "Credential not found: c1");
    assert_eq!(YKeyError::InvalidCredential(s("bad")).to_string(), "Invalid credential data: bad");
    assert_eq!(
        YKeyError::UnsupportedProtocolVersion(s("9")).to_string(),
        "Unsupported protocol version: 9"
    );
    assert_eq!(
        YKeyError::InvalidParameters(s("PIN must be 4-8 characters")).to_string(),
        "Invalid request parameters: PIN must be 4-8 characters"
    );
    assert_eq!(
        YKeyError::Timeout { seconds: 30 }.to_string(),
        "Operation timed out after 30 seconds"
    );
    assert_eq!(YKeyError::PermissionDenied(s("usb")).to_string(), "Permission denied: usb");
    assert_eq!(YKeyError::DeviceBusy(s("held")).to_string(), "Device busy: held");
}

#[test]
fn device_types_are_shown_by_name() {
    let names = [
        (DeviceType::YubiKey, "YubiKey"),
        (DeviceType::CanoKey, "CanoKey"),
        (DeviceType::Nitrokey, "Nitrokey"),
        (DeviceType::SoloKey, "SoloKey"),
        (DeviceType::Generic, "Generic"),
    ];
    for (t, name) in names {
        assert_eq!(
            YKeyError::UnsupportedDevice(t).to_string(),
            format!("Unsupported device type: {}", name)
        );
        assert_eq!(format!("{:?}", t), name);
    }
}

#[test]
fn timeouts_are_shown_in_decimal() {
    for seconds in [0u64, 1, 9, 10, 11, 99, 100, 101, 12345, 1_000_000, u64::MAX - 1, u64::MAX] {
        assert_eq!(
            YKeyError::timeout(seconds).to_string(),
            format!("Operation timed out after {} seconds", seconds)
        );
    }
    assert_eq!(
        YKeyError::timeout(u64::MAX).to_string(),
        "Operation timed out after 18446744073709551615 seconds"
    );
}

#[test]
fn status_codes_are_shown_in_hexadecimal() {
    for code in 0u8..=255 {
        let shown = YKeyError::ctap_error(code).to_string();
        assert!(shown.starts_with(&format!("CTAP error code: {:#04x} - ", code)));
    }
}
