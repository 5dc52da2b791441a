//! Host-side core for FIDO2/CTAP2 hardware security keys: the CTAP2 protocol
//! engine with its PIN session, the device manager with its connection
//! table, the merging of discovery results, and the error taxonomy.

pub mod discovery;
pub mod error;
pub mod factory;
pub mod manager;
pub mod platform;
pub mod protocol;
pub mod records;
pub mod text;
pub mod types;
pub mod usb;

pub use crate::discovery::{dedup_by_id, find_device, is_device_available, merge_scans};
pub use crate::error::{YKeyError, YKeyResult};
pub use crate::factory::{
    CanoKeyCreator, DeviceCreator, DeviceFactory, GenericFidoCreator, MockDevice, YubiKeyCreator,
};
pub use crate::manager::{Connection, DeviceManager};
pub use crate::platform::{
    create_mock_device, create_platform_discovery, FidoDeviceIds, MockDiscovery,
};
pub use crate::protocol::{
    check_pin_length, ClientPinCommand, CommandKind, CtapCommand, CtapResponse, DeviceReply,
    Fido2Client,
};
pub use crate::records::{
    AppConfig, EventType, LogEntry, LogFilter, LogLevel, PinComplexity, SecurityEvent,
    SecurityPolicies, StorageStats, TransportProperties,
};
pub use crate::types::{
    AssertionObject, AttestationObject, AuthenticatorInfo, Capability, Credential, CredentialId,
    DeviceEvent, DeviceInfo, DeviceType, GetAssertionOptions, GetAssertionParams,
    MakeCredentialOptions, MakeCredentialParams, PublicKeyCredentialDescriptor,
    PublicKeyCredentialParameter, RelyingParty, Timestamp, TransportType, User,
};
pub use crate::usb::{FrontendDeviceInfo, MacOSUsbDiscovery, UsbData, UsbNode};
