//! The data model: devices, credentials, request parameters and response
//! objects.

use std::collections::HashMap;
use vstd::prelude::*;

verus! {

/// `serde_json::Value`, the type of a free-form extension or attestation
/// entry. The library only carries such values; it never looks inside one.
#[verifier::external_type_specification]
#[verifier::external_body]
pub struct ExJsonValue(serde_json::Value);

/// A point in time: whole seconds since the Unix epoch (UTC) and the
/// nanoseconds within that second.
#[derive(Debug, Clone, Copy, PartialEq, Eq, Structural, Hash)]
pub struct Timestamp {
    /// Non-leap seconds since 1970-01-01 00:00:00 UTC.
    pub secs: i64,
    /// Nanoseconds since the last second boundary.
    pub nanos: u32,
}

/// Reads the clock through `chrono::Utc::now` and takes the reading apart with
/// `DateTime::timestamp` and `DateTime::timestamp_subsec_nanos`. Of the
/// reading only its range is claimed: the nanoseconds stay below two seconds'
/// worth, the second billion standing for a leap second. `Utc::now` panics on
/// a machine whose clock stands before the Unix epoch.
#[verifier::external_body]
fn utc_now() -> (t: Timestamp)
    ensures
        t.wf(),
{
    let now = chrono::Utc::now();
    Timestamp { secs: now.timestamp(), nanos: now.timestamp_subsec_nanos() }
}

impl Timestamp {
    /// The nanoseconds stay below two seconds' worth: up to 999,999,999
    /// within an ordinary second, and from 1,000,000,000 on within a leap
    /// second.
    pub open spec fn wf(&self) -> bool {
        self.nanos < 2_000_000_000
    }

    /// The current time: a reading of the clock, which is a valid point in
    /// time.
    pub fn now() -> (r: Timestamp)
        ensures
            r.wf(),
    {
        utc_now()
    }
}

/// Device type classification.
#[derive(Debug, Clone, Copy, PartialEq, Eq, Structural, Hash)]
pub enum DeviceType {
    /// Yubico YubiKey devices
    YubiKey,
    /// CanoKeys devices
    CanoKey,
    /// Nitrokey devices
    Nitrokey,
    /// SoloKeys devices
    SoloKey,
    /// Generic FIDO2 compatible devices
    Generic,
}

impl Default for DeviceType {
    fn default() -> (r: Self)
        ensures
            r == DeviceType::Generic,
    {
        DeviceType::Generic
    }
}

impl DeviceType {
    /// The variant's name as text.
    pub open spec fn name_text(self) -> Seq<char> {
        match self {
            DeviceType::YubiKey => "YubiKey"@,
            DeviceType::CanoKey => "CanoKey"@,
            DeviceType::Nitrokey => "Nitrokey"@,
            DeviceType::SoloKey => "SoloKey"@,
            DeviceType::Generic => "Generic"@,
        }
    }

    /// The variant's name in lower case, as it stands in a device identifier.
    pub open spec fn slug_text(self) -> Seq<char> {
        match self {
            DeviceType::YubiKey => "yubikey"@,
            DeviceType::CanoKey => "canokey"@,
            DeviceType::Nitrokey => "nitrokey"@,
            DeviceType::SoloKey => "solokey"@,
            DeviceType::Generic => "generic"@,
        }
    }

    /// The variant's name.
    pub fn name(&self) -> (r: &'static str)
        ensures
            r@ == self.name_text(),
    {
        match self {
            DeviceType::YubiKey => "YubiKey",
            DeviceType::CanoKey => "CanoKey",
            DeviceType::Nitrokey => "Nitrokey",
            DeviceType::SoloKey => "SoloKey",
            DeviceType::Generic => "Generic",
        }
    }

    /// The variant's name in lower case.
    pub fn slug(&self) -> (r: &'static str)
        ensures
            r@ == self.slug_text(),
    {
        match self {
            DeviceType::YubiKey => "yubikey",
            DeviceType::CanoKey => "canokey",
            DeviceType::Nitrokey => "nitrokey",
            DeviceType::SoloKey => "solokey",
            DeviceType::Generic => "generic",
        }
    }
}

/// Communication transport methods.
#[derive(Debug, Clone, Copy, PartialEq, Eq, Structural, Hash)]
pub enum TransportType {
    /// USB HID transport
    Usb,
    /// Near Field Communication
    Nfc,
    /// Bluetooth transport
    Bluetooth,
    /// Hybrid transport (multiple methods)
    Hybrid,
}

impl Default for TransportType {
    fn default() -> (r: Self)
        ensures
            r == TransportType::Usb,
    {
        TransportType::Usb
    }
}

impl TransportType {
    /// The variant's name as text.
    pub open spec fn name_text(self) -> Seq<char> {
        match self {
            TransportType::Usb => "Usb"@,
            TransportType::Nfc => "Nfc"@,
            TransportType::Bluetooth => "Bluetooth"@,
            TransportType::Hybrid => "Hybrid"@,
        }
    }

    /// The variant's name.
    pub fn name(&self) -> (r: &'static str)
        ensures
            r@ == self.name_text(),
    {
        match self {
            TransportType::Usb => "Usb",
            TransportType::Nfc => "Nfc",
            TransportType::Bluetooth => "Bluetooth",
            TransportType::Hybrid => "Hybrid",
        }
    }
}

/// Device capabilities.
#[derive(Debug, Clone, Copy, PartialEq, Eq, Structural, Hash)]
pub enum Capability {
    /// FIDO2/WebAuthn support
    Fido2,
    /// FIDO U2F support
    Fido1,
    /// OATH TOTP/HOTP support
    Oath,
    /// PIV (Personal Identity Verification)
    Piv,
    /// OpenPGP support
    OpenPgp,
    /// OTP (One-Time Password) support
    Otp,
}

impl Capability {
    /// The variant's name as text.
    pub open spec fn name_text(self) -> Seq<char> {
        match self {
            Capability::Fido2 => "Fido2"@,
            Capability::Fido1 => "Fido1"@,
            Capability::Oath => "Oath"@,
            Capability::Piv => "Piv"@,
            Capability::OpenPgp => "OpenPgp"@,
            Capability::Otp => "Otp"@,
        }
    }

    /// The variant's name.
    pub fn name(&self) -> (r: &'static str)
        ensures
            r@ == self.name_text(),
    {
        match self {
            Capability::Fido2 => "Fido2",
            Capability::Fido1 => "Fido1",
            Capability::Oath => "Oath",
            Capability::Piv => "Piv",
            Capability::OpenPgp => "OpenPgp",
            Capability::Otp => "Otp",
        }
    }
}

/// The text of an optional string.
pub open spec fn opt_text(s: Option<String>) -> Option<Seq<char>> {
    match s {
        Some(t) => Some(t@),
        None => None,
    }
}

/// What a [`DeviceInfo`] holds, with each string as its text.
pub struct DeviceInfoView {
    pub id: Seq<char>,
    pub name: Seq<char>,
    pub manufacturer: Seq<char>,
    pub product_name: Seq<char>,
    pub serial_number: Option<Seq<char>>,
    pub vendor_id: u16,
    pub product_id: u16,
    pub device_type: DeviceType,
    pub transport: TransportType,
    pub capabilities: Seq<Capability>,
    pub firmware_version: Option<Seq<char>>,
    pub last_seen: Timestamp,
}

/// Device information containing metadata and capabilities.
#[derive(Debug, PartialEq, Eq)]
pub struct DeviceInfo {
    /// Unique device identifier
    pub id: String,
    /// Human-readable device name
    pub name: String,
    /// Device manufacturer
    pub manufacturer: String,
    /// Product name
    pub product_name: String,
    /// Serial number (if available)
    pub serial_number: Option<String>,
    /// USB vendor ID
    pub vendor_id: u16,
    /// USB product ID
    pub product_id: u16,
    /// Device type classification
    pub device_type: DeviceType,
    /// Communication transport method
    pub transport: TransportType,
    /// Supported capabilities, each at most once
    pub capabilities: Vec<Capability>,
    /// Firmware version (if available)
    pub firmware_version: Option<String>,
    /// When this device info was last updated
    pub last_seen: Timestamp,
}

impl View for DeviceInfo {
    type V = DeviceInfoView;

    open spec fn view(&self) -> DeviceInfoView {
        DeviceInfoView {
            id: self.id@,
            name: self.name@,
            manufacturer: self.manufacturer@,
            product_name: self.product_name@,
            serial_number: opt_text(self.serial_number),
            vendor_id: self.vendor_id,
            product_id: self.product_id,
            device_type: self.device_type,
            transport: self.transport,
            capabilities: self.capabilities@,
            firmware_version: opt_text(self.firmware_version),
            last_seen: self.last_seen,
        }
    }
}

fn clone_opt_string(s: &Option<String>) -> (r: Option<String>)
    ensures
        opt_text(r) == opt_text(*s),
{
    match s {
        Some(t) => Some(t.clone()),
        None => None,
    }
}

fn clone_capabilities(v: &Vec<Capability>) -> (r: Vec<Capability>)
    ensures
        r@ == v@,
{
    let mut out: Vec<Capability> = Vec::new();
    let mut i: usize = 0;
    while i < v.len()
        invariant
            0 <= i <= v@.len(),
            out@ == v@.take(i as int),
        decreases v@.len() - i,
    {
        out.push(v[i]);
        assert(out@ =~= v@.take(i + 1));
        i = i + 1;
    }
    assert(v@.take(i as int) =~= v@);
    out
}

impl Clone for DeviceInfo {
    fn clone(&self) -> (r: Self)
        ensures
            r@ == self@,
    {
        DeviceInfo {
            id: self.id.clone(),
            name: self.name.clone(),
            manufacturer: self.manufacturer.clone(),
            product_name: self.product_name.clone(),
            serial_number: clone_opt_string(&self.serial_number),
            vendor_id: self.vendor_id,
            product_id: self.product_id,
            device_type: self.device_type,
            transport: self.transport,
            capabilities: clone_capabilities(&self.capabilities),
            firmware_version: clone_opt_string(&self.firmware_version),
            last_seen: self.last_seen,
        }
    }
}

impl DeviceInfo {
    /// The capability list is a set: no capability stands in it twice.
    pub open spec fn wf(&self) -> bool {
        self.capabilities@.no_duplicates()
    }

    /// A device seen now, with no serial number, no firmware version and no
    /// capability yet.
    pub fn new(
        id: String,
        name: String,
        manufacturer: String,
        product_name: String,
        vendor_id: u16,
        product_id: u16,
        device_type: DeviceType,
        transport: TransportType,
    ) -> (r: Self)
        ensures
            r.id == id,
            r.name == name,
            r.manufacturer == manufacturer,
            r.product_name == product_name,
            r.serial_number is None,
            r.vendor_id == vendor_id,
            r.product_id == product_id,
            r.device_type == device_type,
            r.transport == transport,
            r.capabilities@ == Seq::<Capability>::empty(),
            r.firmware_version is None,
            r.last_seen.wf(),
            r.wf(),
    {
        DeviceInfo::seen_at(
            id,
            name,
            manufacturer,
            product_name,
            vendor_id,
            product_id,
            device_type,
            transport,
            Timestamp::now(),
        )
    }

    /// A device seen at `last_seen`, with no serial number, no firmware
    /// version and no capability yet.
    pub fn seen_at(
        id: String,
        name: String,
        manufacturer: String,
        product_name: String,
        vendor_id: u16,
        product_id: u16,
        device_type: DeviceType,
        transport: TransportType,
        last_seen: Timestamp,
    ) -> (r: Self)
        ensures
            r == (DeviceInfo {
                id,
                name,
                manufacturer,
                product_name,
                serial_number: None,
                vendor_id,
                product_id,
                device_type,
                transport,
                capabilities: r.capabilities,
                firmware_version: None,
                last_seen,
            }),
            r.capabilities@ == Seq::<Capability>::empty(),
            r.wf(),
    {
        DeviceInfo {
            id,
            name,
            manufacturer,
            product_name,
            serial_number: None,
            vendor_id,
            product_id,
            device_type,
            transport,
            capabilities: Vec::new(),
            firmware_version: None,
            last_seen,
        }
    }

    /// Whether the device has the capability.
    pub fn has_capability(&self, capability: &Capability) -> (r: bool)
        ensures
            r == self.capabilities@.contains(*capability),
    {
        let mut i: usize = 0;
        while i < self.capabilities.len()
            invariant
                0 <= i <= self.capabilities@.len(),
                !self.capabilities@.take(i as int).contains(*capability),
            decreases self.capabilities@.len() - i,
        {
            if self.capabilities[i] == *capability {
                return true;
            }
            assert(self.capabilities@.take(i + 1) =~= self.capabilities@.take(i as int).push(
                self.capabilities@[i as int],
            ));
            i = i + 1;
        }
        assert(self.capabilities@.take(i as int) =~= self.capabilities@);
        false
    }

    /// Adds a capability. Adding one that the device already has changes
    /// nothing.
    pub fn add_capability(&mut self, capability: Capability)
        ensures
            final(self).capabilities@ == if old(self).capabilities@.contains(capability) {
                old(self).capabilities@
            } else {
                old(self).capabilities@.push(capability)
            },
            final(self).capabilities@.contains(capability),
            old(self).wf() ==> final(self).wf(),
            *final(self) == (DeviceInfo { capabilities: final(self).capabilities, ..*old(self) }),
    {
        if !self.has_capability(&capability) {
            self.capabilities.push(capability);
            proof {
                let s = old(self).capabilities@;
                assert(self.capabilities@ == s.push(capability));
                assert(s.push(capability)[s.len() as int] == capability);
                if s.no_duplicates() {
                    assert(s.push(capability).no_duplicates());
                }
            }
        }
    }

    /// Sets the last-seen time to now, a valid reading of the clock. Nothing
    /// else changes.
    pub fn update_last_seen(&mut self)
        ensures
            final(self).last_seen.wf(),
            *final(self) == (DeviceInfo { last_seen: final(self).last_seen, ..*old(self) }),
    {
        self.last_seen = Timestamp::now();
    }
}

/// Credential identifier type.
pub type CredentialId = Vec<u8>;

/// Stored credential information.
#[derive(Debug, Clone, PartialEq)]
pub struct Credential {
    /// Credential identifier
    pub id: CredentialId,
    /// Relying party identifier
    pub rp_id: String,
    /// User identifier
    pub user_id: Vec<u8>,
    /// User name
    pub user_name: String,
    /// User display name
    pub user_display_name: String,
    /// Public key bytes
    pub public_key: Vec<u8>,
    /// Usage counter
    pub counter: u32,
    /// Creation timestamp
    pub created_at: Timestamp,
    /// Last usage timestamp
    pub last_used: Option<Timestamp>,
}

/// Relying Party information.
#[derive(Debug, Clone)]
pub struct RelyingParty {
    /// Relying party identifier
    pub id: String,
    /// Relying party name
    pub name: Option<String>,
    /// Relying party icon URL
    pub icon: Option<String>,
}

/// User information for credential creation.
#[derive(Debug, Clone)]
pub struct User {
    /// User identifier
    pub id: Vec<u8>,
    /// User name
    pub name: String,
    /// User display name
    pub display_name: String,
    /// User icon URL
    pub icon: Option<String>,
}

/// Public key credential parameter.
#[derive(Debug, Clone)]
pub struct PublicKeyCredentialParameter {
    /// Credential type (always "public-key" for WebAuthn)
    pub cred_type: String,
    /// Algorithm identifier (COSE algorithm)
    pub alg: i64,
}

/// Public key credential descriptor.
#[derive(Debug, Clone)]
pub struct PublicKeyCredentialDescriptor {
    /// Credential type
    pub cred_type: String,
    /// Credential ID
    pub id: Vec<u8>,
    /// Allowed transports
    pub transports: Option<Vec<String>>,
}

/// Options for the MakeCredential operation.
#[derive(Debug, Clone)]
pub struct MakeCredentialOptions {
    /// Require resident key
    pub rk: Option<bool>,
    /// User verification requirement
    pub uv: Option<bool>,
    /// User presence requirement
    pub up: Option<bool>,
}

impl Default for MakeCredentialOptions {
    fn default() -> (r: Self)
        ensures
            r.rk is None,
            r.uv is None,
            r.up is None,
    {
        MakeCredentialOptions { rk: None, uv: None, up: None }
    }
}

/// Options for the GetAssertion operation.
#[derive(Debug, Clone)]
pub struct GetAssertionOptions {
    /// User presence requirement
    pub up: Option<bool>,
    /// User verification requirement
    pub uv: Option<bool>,
}

impl Default for GetAssertionOptions {
    fn default() -> (r: Self)
        ensures
            r.up is None,
            r.uv is None,
    {
        GetAssertionOptions { up: None, uv: None }
    }
}

/// FIDO2 MakeCredential parameters.
#[derive(Debug, Clone)]
pub struct MakeCredentialParams {
    /// Hash of client data
    pub client_data_hash: Vec<u8>,
    /// Relying party information
    pub rp: RelyingParty,
    /// User information
    pub user: User,
    /// Supported public key credential parameters
    pub pub_key_cred_params: Vec<PublicKeyCredentialParameter>,
    /// Credentials to exclude
    pub exclude_list: Option<Vec<PublicKeyCredentialDescriptor>>,
    /// Extensions
    pub extensions: Option<HashMap<String, serde_json::Value>>,
    /// Options for credential creation
    pub options: MakeCredentialOptions,
    /// PIN/UV auth parameter
    pub pin_uv_auth_param: Option<Vec<u8>>,
    /// PIN/UV auth protocol version
    pub pin_uv_auth_protocol: Option<u8>,
}

impl MakeCredentialParams {
    /// A PIN/UV auth parameter never comes without its protocol version.
    pub open spec fn wf(&self) -> bool {
        self.pin_uv_auth_param is Some ==> self.pin_uv_auth_protocol is Some
    }

    /// Whether the PIN/UV auth parameter, if there is one, comes with its
    /// protocol version.
    pub fn is_well_formed(&self) -> (r: bool)
        ensures
            r == self.wf(),
    {
        self.pin_uv_auth_param.is_none() || self.pin_uv_auth_protocol.is_some()
    }
}

/// FIDO2 GetAssertion parameters.
#[derive(Debug, Clone)]
pub struct GetAssertionParams {
    /// Relying party identifier
    pub rp_id: String,
    /// Hash of client data
    pub client_data_hash: Vec<u8>,
    /// Allowed credentials list
    pub allow_list: Option<Vec<PublicKeyCredentialDescriptor>>,
    /// Extensions
    pub extensions: Option<HashMap<String, serde_json::Value>>,
    /// Options for assertion
    pub options: GetAssertionOptions,
    /// PIN/UV auth parameter
    pub pin_uv_auth_param: Option<Vec<u8>>,
    /// PIN/UV auth protocol version
    pub pin_uv_auth_protocol: Option<u8>,
}

impl GetAssertionParams {
    /// A PIN/UV auth parameter never comes without its protocol version.
    pub open spec fn wf(&self) -> bool {
        self.pin_uv_auth_param is Some ==> self.pin_uv_auth_protocol is Some
    }

    /// Whether the PIN/UV auth parameter, if there is one, comes with its
    /// protocol version.
    pub fn is_well_formed(&self) -> (r: bool)
        ensures
            r == self.wf(),
    {
        self.pin_uv_auth_param.is_none() || self.pin_uv_auth_protocol.is_some()
    }
}

/// Attestation object returned by MakeCredential.
#[derive(Debug, Clone)]
pub struct AttestationObject {
    /// Format of attestation statement
    pub fmt: String,
    /// Attestation statement
    pub att_stmt: HashMap<String, serde_json::Value>,
    /// Authenticator data
    pub auth_data: Vec<u8>,
}

/// Assertion object returned by GetAssertion.
#[derive(Debug, Clone)]
pub struct AssertionObject {
    /// Credential ID
    pub credential_id: Option<Vec<u8>>,
    /// Authenticator data
    pub auth_data: Vec<u8>,
    /// Assertion signature
    pub signature: Vec<u8>,
    /// User information (for resident keys)
    pub user: Option<User>,
}

/// Authenticator information from GetInfo.
#[derive(Debug, Clone)]
pub struct AuthenticatorInfo {
    /// List of supported versions
    pub versions: Vec<String>,
    /// List of supported extensions
    pub extensions: Option<Vec<String>>,
    /// AAGUID (Authenticator Attestation GUID)
    pub aaguid: Vec<u8>,
    /// Supported options
    pub options: Option<HashMap<String, bool>>,
    /// Maximum message size
    pub max_msg_size: Option<u64>,
    /// PIN/UV protocol versions
    pub pin_uv_auth_protocols: Option<Vec<u64>>,
    /// Maximum credential count in list
    pub max_credential_count_in_list: Option<u64>,
    /// Maximum credential ID length
    pub max_credential_id_length: Option<u64>,
    /// Supported transports
    pub transports: Option<Vec<String>>,
    /// Supported algorithms
    pub algorithms: Option<Vec<PublicKeyCredentialParameter>>,
    /// Maximum serialized large blob array size
    pub max_serialized_large_blob_array: Option<u64>,
    /// Force PIN change
    pub force_pin_change: Option<bool>,
    /// Minimum PIN length
    pub min_pin_length: Option<u64>,
    /// Firmware version
    pub firmware_version: Option<u64>,
    /// Maximum credential blob length
    pub max_cred_blob_length: Option<u64>,
    /// Maximum RP IDs for SetMinPINLength
    pub max_rp_ids_for_set_min_pin_length: Option<u64>,
    /// Preferred platform UV attempts
    pub preferred_platform_uv_attempts: Option<u64>,
    /// UV modality
    pub uv_modality: Option<u64>,
    /// Certifications
    pub certifications: Option<HashMap<String, serde_json::Value>>,
    /// Remaining discoverable credentials
    pub remaining_discoverable_credentials: Option<u64>,
    /// Vendor prototype config commands
    pub vendor_prototype_config_commands: Option<Vec<u64>>,
}

/// Device event stream item.
#[derive(Debug, Clone)]
pub enum DeviceEvent {
    /// Device connected
    Connected(DeviceInfo),
    /// Device disconnected
    Disconnected(String),
    /// Device error
    Error { device_id: String, error: String },
}

} // verus!
