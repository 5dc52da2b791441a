//! What is known of FIDO2 hardware: the table of vendor and product
//! identifiers, and a discovery source that reports a fixed list of devices.

use crate::discovery::{has_id, is_device_available};
use crate::error::YKeyResult;
use crate::types::{Capability, DeviceInfo, DeviceType, TransportType};
use vstd::prelude::*;
use vstd::string::*;

verus! {

/// The known FIDO2 devices: vendor identifier, product identifier and device
/// type of each.
pub open spec fn known_devices() -> Seq<(u16, u16, DeviceType)> {
    seq![
        (0x1050u16, 0x0010u16, DeviceType::YubiKey),
        (0x1050u16, 0x0018u16, DeviceType::YubiKey),
        (0x1050u16, 0x0030u16, DeviceType::YubiKey),
        (0x1050u16, 0x0407u16, DeviceType::YubiKey),
        (0x1050u16, 0x0410u16, DeviceType::YubiKey),
        (0x20A0u16, 0x42D4u16, DeviceType::CanoKey),
        (0x20A0u16, 0x42B1u16, DeviceType::Nitrokey),
        (0x20A0u16, 0x42B2u16, DeviceType::Nitrokey),
        (0x0483u16, 0xA2CAu16, DeviceType::SoloKey),
        (0x1209u16, 0x5070u16, DeviceType::SoloKey),
    ]
}

/// The device type of a vendor and product identifier, if the pair is known.
pub open spec fn known_type(vendor_id: u16, product_id: u16) -> Option<DeviceType> {
    if vendor_id == 0x1050 && (product_id == 0x0010 || product_id == 0x0018 || product_id == 0x0030
        || product_id == 0x0407 || product_id == 0x0410) {
        Some(DeviceType::YubiKey)
    } else if vendor_id == 0x20A0 && product_id == 0x42D4 {
        Some(DeviceType::CanoKey)
    } else if vendor_id == 0x20A0 && (product_id == 0x42B1 || product_id == 0x42B2) {
        Some(DeviceType::Nitrokey)
    } else if (vendor_id == 0x0483 && product_id == 0xA2CA) || (vendor_id == 0x1209 && product_id
        == 0x5070) {
        Some(DeviceType::SoloKey)
    } else {
        None
    }
}

/// Whether a vendor identifier stands in the table of known devices.
pub open spec fn is_known_vendor(vendor_id: u16) -> bool {
    exists|i: int| 0 <= i < known_devices().len() && (#[trigger] known_devices()[i]).0 == vendor_id
}

/// Strictly ascending: each value is below the next, so none stands twice.
pub open spec fn strictly_ascending(s: Seq<u16>) -> bool {
    forall|i: int, j: int| 0 <= i < j < s.len() ==> s[i] < s[j]
}

/// The ten entries of the table of known devices, one by one.
proof fn lemma_known_devices_entries()
    ensures
        known_devices().len() == 10,
        known_devices()[0] == (0x1050u16, 0x0010u16, DeviceType::YubiKey),
        known_devices()[1] == (0x1050u16, 0x0018u16, DeviceType::YubiKey),
        known_devices()[2] == (0x1050u16, 0x0030u16, DeviceType::YubiKey),
        known_devices()[3] == (0x1050u16, 0x0407u16, DeviceType::YubiKey),
        known_devices()[4] == (0x1050u16, 0x0410u16, DeviceType::YubiKey),
        known_devices()[5] == (0x20A0u16, 0x42D4u16, DeviceType::CanoKey),
        known_devices()[6] == (0x20A0u16, 0x42B1u16, DeviceType::Nitrokey),
        known_devices()[7] == (0x20A0u16, 0x42B2u16, DeviceType::Nitrokey),
        known_devices()[8] == (0x0483u16, 0xA2CAu16, DeviceType::SoloKey),
        known_devices()[9] == (0x1209u16, 0x5070u16, DeviceType::SoloKey),
{
}

/// The table of known devices answers as the device type of the pair says:
/// an entry with a vendor and product identifier has the pair's type.
pub proof fn lemma_known_devices_agree(vendor_id: u16, product_id: u16, i: int)
    requires
        0 <= i < known_devices().len(),
        known_devices()[i].0 == vendor_id,
        known_devices()[i].1 == product_id,
    ensures
        known_type(vendor_id, product_id) == Some(known_devices()[i].2),
{
    lemma_known_devices_entries();
}

/// A pair that has a device type stands in the table of known devices.
pub proof fn lemma_known_type_is_listed(vendor_id: u16, product_id: u16)
    requires
        known_type(vendor_id, product_id) is Some,
    ensures
        exists|i: int|
            0 <= i < known_devices().len() && #[trigger] known_devices()[i] == (
                vendor_id,
                product_id,
                known_type(vendor_id, product_id)->Some_0,
            ),
{
    lemma_known_devices_entries();
}

/// Common FIDO2 device vendor/product ID combinations.
pub struct FidoDeviceIds;

impl FidoDeviceIds {
    /// The table of known devices.
    pub fn known_devices() -> (r: Vec<(u16, u16, DeviceType)>)
        ensures
            r@ == known_devices(),
    {
        let mut table: Vec<(u16, u16, DeviceType)> = Vec::new();
        table.push((0x1050, 0x0010, DeviceType::YubiKey));
        table.push((0x1050, 0x0018, DeviceType::YubiKey));
        table.push((0x1050, 0x0030, DeviceType::YubiKey));
        table.push((0x1050, 0x0407, DeviceType::YubiKey));
        table.push((0x1050, 0x0410, DeviceType::YubiKey));
        table.push((0x20A0, 0x42D4, DeviceType::CanoKey));
        table.push((0x20A0, 0x42B1, DeviceType::Nitrokey));
        table.push((0x20A0, 0x42B2, DeviceType::Nitrokey));
        table.push((0x0483, 0xA2CA, DeviceType::SoloKey));
        table.push((0x1209, 0x5070, DeviceType::SoloKey));
        assert(table@ =~= known_devices());
        table
    }

    /// The device type of a vendor and product identifier, if the pair is a
    /// known FIDO2 device.
    pub fn is_known_fido_device(vendor_id: u16, product_id: u16) -> (r: Option<DeviceType>)
        ensures
            r == known_type(vendor_id, product_id),
    {
        let table = Self::known_devices();
        let mut i: usize = 0;
        while i < table.len()
            invariant
                i <= table@.len(),
                table@ == known_devices(),
                forall|k: int|
                    0 <= k < i ==> !((#[trigger] table@[k]).0 == vendor_id && table@[k].1
                        == product_id),
            decreases table@.len() - i,
        {
            if table[i].0 == vendor_id && table[i].1 == product_id {
                proof {
                    lemma_known_devices_agree(vendor_id, product_id, i as int);
                }
                return Some(table[i].2);
            }
            i = i + 1;
        }
        proof {
            if known_type(vendor_id, product_id) is Some {
                lemma_known_type_is_listed(vendor_id, product_id);
            }
        }
        None
    }

    /// The vendor identifiers of the known devices, each once, in ascending
    /// order.
    pub fn known_vendor_ids() -> (r: Vec<u16>)
        ensures
            strictly_ascending(r@),
            forall|v: u16| r@.contains(v) <==> is_known_vendor(v),
    {
        let table = Self::known_devices();
        let mut out: Vec<u16> = Vec::new();
        let mut i: usize = 0;
        while i < table.len()
            invariant
                i <= table@.len(),
                table@ == known_devices(),
                strictly_ascending(out@),
                forall|v: u16|
                    out@.contains(v) <==> exists|k: int| 0 <= k < i && (#[trigger] table@[k]).0 == v,
            decreases table@.len() - i,
        {
            let vendor_id: u16 = table[i].0;
            let ghost before = out@;
            let mut p: usize = 0;
            while p < out.len() && out[p] < vendor_id
                invariant
                    p <= out@.len(),
                    strictly_ascending(out@),
                    forall|k: int| 0 <= k < p ==> out@[k] < vendor_id,
                decreases out@.len() - p,
            {
                p = p + 1;
            }
            if p < out.len() && out[p] == vendor_id {
                proof {
                    assert(before.contains(vendor_id));
                    assert forall|v: u16| out@.contains(v) <==> exists|k: int|
                        0 <= k < i + 1 && (#[trigger] table@[k]).0 == v by {
                        if out@.contains(v) {
                            let k = choose|k: int| 0 <= k < i && (#[trigger] table@[k]).0 == v;
                            assert(0 <= k < i + 1 && table@[k].0 == v);
                        }
                        if exists|k: int| 0 <= k < i + 1 && (#[trigger] table@[k]).0 == v {
                            let k = choose|k: int| 0 <= k < i + 1 && (#[trigger] table@[k]).0 == v;
                            if k < i {
                                assert(0 <= k < i && table@[k].0 == v);
                            }
                        }
                    }
                }
            } else {
                out.insert(p, vendor_id);
                proof {
                    let after = out@;
                    assert(after == before.insert(p as int, vendor_id));
                    assert forall|a: int, b: int| 0 <= a < b < after.len() implies after[a]
                        < after[b] by {
                        let ba = if a < p { a } else { a - 1 };
                        let bb = if b < p { b } else { b - 1 };
                        if a == p {
                            assert(after[b] == before[b - 1]);
                            assert(before[p as int] <= before[b - 1]) by {
                                if b - 1 > p {
                                    assert(before[p as int] < before[b - 1]);
                                }
                            }
                        } else if b == p {
                            assert(after[a] == before[a]);
                        } else {
                            assert(after[a] == before[ba]);
                            assert(after[b] == before[bb]);
                            assert(before[ba] < before[bb]);
                        }
                    }
                    assert forall|v: u16| after.contains(v) <==> exists|k: int|
                        0 <= k < i + 1 && (#[trigger] table@[k]).0 == v by {
                        if after.contains(v) {
                            let a = choose|a: int| 0 <= a < after.len() && after[a] == v;
                            if a == p {
                                assert(table@[i as int].0 == v);
                            } else {
                                let ba = if a < p { a } else { a - 1 };
                                assert(before[ba] == v);
                                assert(before.contains(v));
                                let k = choose|k: int| 0 <= k < i && (#[trigger] table@[k]).0 == v;
                                assert(0 <= k < i + 1 && table@[k].0 == v);
                            }
                        }
                        if exists|k: int| 0 <= k < i + 1 && (#[trigger] table@[k]).0 == v {
                            let k = choose|k: int| 0 <= k < i + 1 && (#[trigger] table@[k]).0 == v;
                            if k < i {
                                assert(0 <= k < i && table@[k].0 == v);
                                assert(before.contains(v));
                                let b = choose|b: int| 0 <= b < before.len() && before[b] == v;
                                let ab = if b < p { b } else { b + 1 };
                                assert(after[ab] == v);
                            } else {
                                assert(after[p as int] == v);
                            }
                        }
                    }
                }
            }
            i = i + 1;
        }
        out
    }
}

/// The manufacturer that a mock device of the type is given.
pub open spec fn mock_manufacturer(device_type: DeviceType) -> Seq<char> {
    match device_type {
        DeviceType::YubiKey => "Yubico"@,
        DeviceType::CanoKey => "CanoKeys"@,
        DeviceType::Nitrokey => "Nitrokey"@,
        DeviceType::SoloKey => "SoloKeys"@,
        DeviceType::Generic => "Generic"@,
    }
}

/// The product name that a mock device of the type is given.
pub open spec fn mock_product_name(device_type: DeviceType) -> Seq<char> {
    match device_type {
        DeviceType::YubiKey => "YubiKey"@,
        DeviceType::CanoKey => "CanoKey"@,
        DeviceType::Nitrokey => "Nitrokey"@,
        DeviceType::SoloKey => "Solo"@,
        DeviceType::Generic => "FIDO2 Key"@,
    }
}

/// The capabilities of a USB device of the type: FIDO2 for every type, and
/// for a YubiKey also FIDO U2F, OATH, PIV and OTP.
pub open spec fn usb_capabilities(device_type: DeviceType) -> Seq<Capability> {
    if device_type == DeviceType::YubiKey {
        seq![Capability::Fido2, Capability::Fido1, Capability::Oath, Capability::Piv, Capability::Otp]
    } else {
        seq![Capability::Fido2]
    }
}

/// Gives a device the capabilities of a USB device of its type.
pub(crate) fn add_usb_capabilities(info: &mut DeviceInfo)
    requires
        old(info).capabilities@.len() == 0,
    ensures
        final(info).capabilities@ == usb_capabilities(old(info).device_type),
        final(info).wf(),
        *final(info) == (DeviceInfo { capabilities: final(info).capabilities, ..*old(info) }),
{
    assert(info.wf());
    info.add_capability(Capability::Fido2);
    if info.device_type == DeviceType::YubiKey {
        info.add_capability(Capability::Fido1);
        info.add_capability(Capability::Oath);
        info.add_capability(Capability::Piv);
        info.add_capability(Capability::Otp);
        proof {
            let s0 = Seq::<Capability>::empty().push(Capability::Fido2);
            assert(s0[0] == Capability::Fido2);
            let s1 = s0.push(Capability::Fido1);
            let s2 = s1.push(Capability::Oath);
            let s3 = s2.push(Capability::Piv);
            assert(!s0.contains(Capability::Fido1));
            assert(!s1.contains(Capability::Oath));
            assert(!s2.contains(Capability::Piv));
            assert(!s3.contains(Capability::Otp));
            assert(info.capabilities@ =~= usb_capabilities(old(info).device_type));
        }
    } else {
        assert(info.capabilities@ =~= usb_capabilities(old(info).device_type));
    }
}

/// A mock USB device: manufacturer and product name by the device type, the
/// display name made of the two, and the capabilities of a USB device of the
/// type.
pub fn create_mock_device(id: &str, device_type: DeviceType, vendor_id: u16, product_id: u16) -> (r:
    DeviceInfo)
    ensures
        is_mock_device(r, id@, device_type, vendor_id, product_id),
        r.wf(),
{
    let manufacturer: &str = match device_type {
        DeviceType::YubiKey => "Yubico",
        DeviceType::CanoKey => "CanoKeys",
        DeviceType::Nitrokey => "Nitrokey",
        DeviceType::SoloKey => "SoloKeys",
        DeviceType::Generic => "Generic",
    };
    let product_name: &str = match device_type {
        DeviceType::YubiKey => "YubiKey",
        DeviceType::CanoKey => "CanoKey",
        DeviceType::Nitrokey => "Nitrokey",
        DeviceType::SoloKey => "Solo",
        DeviceType::Generic => "FIDO2 Key",
    };
    let mut name = String::from_str(manufacturer);
    name.append(" ");
    name.append(product_name);
    let mut info = DeviceInfo::new(
        String::from_str(id),
        name,
        String::from_str(manufacturer),
        String::from_str(product_name),
        vendor_id,
        product_id,
        device_type,
        TransportType::Usb,
    );
    add_usb_capabilities(&mut info);
    info
}

/// Whether a description is that of the mock USB device with the given
/// identifier, type, vendor and product.
pub open spec fn is_mock_device(
    info: DeviceInfo,
    id: Seq<char>,
    device_type: DeviceType,
    vendor_id: u16,
    product_id: u16,
) -> bool {
    &&& info.id@ == id
    &&& info.name@ == mock_manufacturer(device_type) + " "@ + mock_product_name(device_type)
    &&& info.manufacturer@ == mock_manufacturer(device_type)
    &&& info.product_name@ == mock_product_name(device_type)
    &&& info.serial_number is None
    &&& info.vendor_id == vendor_id
    &&& info.product_id == product_id
    &&& info.device_type == device_type
    &&& info.transport == TransportType::Usb
    &&& info.capabilities@ == usb_capabilities(device_type)
    &&& info.firmware_version is None
    &&& info.last_seen.wf()
}

/// Whether a list is what the default source reports: a mock YubiKey, then a
/// mock CanoKey.
pub open spec fn is_default_report(devices: Seq<DeviceInfo>) -> bool {
    &&& devices.len() == 2
    &&& is_mock_device(devices[0], "mock-yubikey-1"@, DeviceType::YubiKey, 0x1050, 0x0407)
    &&& is_mock_device(devices[1], "mock-canokey-1"@, DeviceType::CanoKey, 0x20A0, 0x42D4)
}

/// Whether two lists of devices hold the same descriptions.
pub open spec fn same_devices(a: Seq<DeviceInfo>, b: Seq<DeviceInfo>) -> bool {
    &&& a.len() == b.len()
    &&& forall|i: int| 0 <= i < a.len() ==> (#[trigger] a[i])@ == b[i]@
}

/// A copy of a list of devices.
pub fn clone_devices(devices: &Vec<DeviceInfo>) -> (r: Vec<DeviceInfo>)
    ensures
        same_devices(r@, devices@),
{
    let mut out: Vec<DeviceInfo> = Vec::new();
    let mut i: usize = 0;
    while i < devices.len()
        invariant
            i <= devices@.len(),
            out@.len() == i,
            forall|k: int| 0 <= k < i ==> (#[trigger] out@[k])@ == devices@[k]@,
        decreases devices@.len() - i,
    {
        out.push(devices[i].clone());
        i = i + 1;
    }
    out
}

/// A discovery source that reports a fixed list of devices.
pub struct MockDiscovery {
    devices: Vec<DeviceInfo>,
}

impl MockDiscovery {
    /// The devices that the source reports.
    pub closed spec fn devices(&self) -> Seq<DeviceInfo> {
        self.devices@
    }

    /// A source that reports a mock YubiKey and a mock CanoKey.
    pub fn new() -> (r: Self)
        ensures
            is_default_report(r.devices()),
    {
        let mut devices: Vec<DeviceInfo> = Vec::new();
        devices.push(create_mock_device("mock-yubikey-1", DeviceType::YubiKey, 0x1050, 0x0407));
        devices.push(create_mock_device("mock-canokey-1", DeviceType::CanoKey, 0x20A0, 0x42D4));
        MockDiscovery { devices }
    }

    /// A source that reports the given devices.
    pub fn with_devices(devices: Vec<DeviceInfo>) -> (r: Self)
        ensures
            r.devices() == devices@,
    {
        MockDiscovery { devices }
    }

    /// The devices that are visible now: the source's list.
    pub fn scan(&self) -> (r: YKeyResult<Vec<DeviceInfo>>)
        ensures
            r matches Ok(found) && same_devices(found@, self.devices()),
    {
        Ok(clone_devices(&self.devices))
    }

    /// Whether a device with the identifier is visible now.
    pub fn is_device_available(&self, device_id: &str) -> (r: YKeyResult<bool>)
        ensures
            r matches Ok(b) && b == has_id(self.devices(), device_id@),
    {
        Ok(is_device_available(&self.devices, device_id))
    }
}

impl Default for MockDiscovery {
    fn default() -> (r: Self)
        ensures
            is_default_report(r.devices()),
    {
        MockDiscovery::new()
    }
}

/// The discovery source of this platform.
pub fn create_platform_discovery() -> (r: MockDiscovery)
    ensures
        is_default_report(r.devices()),
{
    MockDiscovery::new()
}

} // verus!
