use ykey::platform::clone_devices;
use ykey::{
    create_mock_device, create_platform_discovery, Capability, DeviceInfo, DeviceType,
    FidoDeviceIds, MockDiscovery, Timestamp, TransportType,
};

#[test]
fn test_mock_discovery() {
    let discovery = MockDiscovery::new();

    let devices = discovery.scan().unwrap();
    assert_eq!(devices.len(), 2);

    assert_eq!(devices[0].device_type, DeviceType::YubiKey);
    assert_eq!(devices[1].device_type, DeviceType::CanoKey);

    // Test device availability
    assert!(discovery.is_device_available("mock-yubikey-1").unwrap());
    assert!(!discovery.is_device_available("non-existent").unwrap());
}

#[test]
fn test_custom_mock_discovery() {
    let custom_devices = vec![create_mock_device("custom-1", DeviceType::Nitrokey, 0x20A0, 0x42B1)];

    let discovery = MockDiscovery::with_devices(custom_devices);
    let devices = discovery.scan().unwrap();

    assert_eq!(devices.len(), 1);
    assert_eq!(devices[0].device_type, DeviceType::Nitrokey);
    assert_eq!(devices[0].id, "custom-1");
}

#[test]
fn test_fido_device_ids() {
    // Test known devices
    assert_eq!(FidoDeviceIds::is_known_fido_device(0x1050, 0x0407), Some(DeviceType::YubiKey));
    assert_eq!(FidoDeviceIds::is_known_fido_device(0x20A0, 0x42D4), Some(DeviceType::CanoKey));

    // Test unknown device
    assert_eq!(FidoDeviceIds::is_known_fido_device(0xFFFF, 0xFFFF), None);

    // Test vendor IDs
    let vendor_ids = FidoDeviceIds::known_vendor_ids();
    assert!(vendor_ids.contains(&0x1050)); // Yubico
    assert!(vendor_ids.contains(&0x20A0)); // Various FIDO2 devices
}

#[test]
fn test_create_mock_device() {
    let device = create_mock_device("test-id", DeviceType::YubiKey, 0x1050, 0x0407);

    assert_eq!(device.id, "test-id");
    assert_eq!(device.device_type, DeviceType::YubiKey);
    assert_eq!(device.vendor_id, 0x1050);
    assert_eq!(device.product_id, 0x0407);
    assert!(device.has_capability(&Capability::Fido2));
    assert!(device.has_capability(&Capability::Fido1));
    assert!(device.has_capability(&Capability::Oath));
}

#[test]
fn test_platform_discovery_creation() {
    let _discovery = create_platform_discovery();
    // Should create without panicking - if we reach this point, it worked
    assert!(true);
}

fn table() -> Vec<(u16, u16, DeviceType)> {
    vec![
        (0x1050, 0x0010, DeviceType::YubiKey),
        (0x1050, 0x0018, DeviceType::YubiKey),
        (0x1050, 0x0030, DeviceType::YubiKey),
        (0x1050, 0x0407, DeviceType::YubiKey),
        (0x1050, 0x0410, DeviceType::YubiKey),
        (0x20A0, 0x42D4, DeviceType::CanoKey),
        (0x20A0, 0x42B1, DeviceType::Nitrokey),
        (0x20A0, 0x42B2, DeviceType::Nitrokey),
        (0x0483, 0xA2CA, DeviceType::SoloKey),
        (0x1209, 0x5070, DeviceType::SoloKey),
    ]
}

#[test]
fn the_table_of_known_devices_is_complete() {
    assert_eq!(FidoDeviceIds::known_devices(), table());
    for (vendor_id, product_id, device_type) in table() {
        assert_eq!(FidoDeviceIds::is_known_fido_device(vendor_id, product_id), Some(device_type));
        // the pair the other way round is not known
        assert_eq!(FidoDeviceIds::is_known_fido_device(product_id, vendor_id), None);
    }
    assert_eq!(FidoDeviceIds::is_known_fido_device(0x1050, 0x0011), None);
    assert_eq!(FidoDeviceIds::is_known_fido_device(0x1050, 0x42D4), None);
    assert_eq!(FidoDeviceIds::is_known_fido_device(0x20A0, 0x0407), None);
    assert_eq!(FidoDeviceIds::is_known_fido_device(0, 0), None);
}

#[test]
fn every_pair_is_looked_up_as_the_table_says() {
    let known = table();
    for vendor_id in [0u16, 0x0483, 0x1050, 0x1209, 0x20A0, 0xFFFF] {
        for product_id in 0u16..=0xFFFF {
            let expected =
                known.iter().find(|(v, p, _)| *v == vendor_id && *p == product_id).map(|e| e.2);
            assert_eq!(FidoDeviceIds::is_known_fido_device(vendor_id, product_id), expected);
        }
    }
}

#[test]
fn known_vendor_ids_are_ascending_and_distinct() {
    assert_eq!(FidoDeviceIds::known_vendor_ids(), vec![0x0483, 0x1050, 0x1209, 0x20A0]);
}

#[test]
fn mock_devices_are_named_by_their_type() {
    let expected = [
        (DeviceType::YubiKey, "Yubico", "YubiKey", "Yubico YubiKey"),
        (DeviceType::CanoKey, "CanoKeys", "CanoKey", "CanoKeys CanoKey"),
        (DeviceType::Nitrokey, "Nitrokey", "Nitrokey", "Nitrokey Nitrokey"),
        (DeviceType::SoloKey, "SoloKeys", "Solo", "SoloKeys Solo"),
        (DeviceType::Generic, "Generic", "FIDO2 Key", "Generic FIDO2 Key"),
    ];
    for (device_type, manufacturer, product_name, name) in expected {
        let device = create_mock_device("x", device_type, 7, 9);
        assert_eq!(device.id, "x");
        assert_eq!(device.manufacturer, manufacturer);
        assert_eq!(device.product_name, product_name);
        assert_eq!(device.name, name);
        assert_eq!(device.vendor_id, 7);
        assert_eq!(device.product_id, 9);
        assert_eq!(device.device_type, device_type);
        assert_eq!(device.transport, TransportType::Usb);
        assert_eq!(device.serial_number, None);
        assert_eq!(device.firmware_version, None);
        if device_type == DeviceType::YubiKey {
            assert_eq!(
                device.capabilities,
                vec![
                    Capability::Fido2,
                    Capability::Fido1,
                    Capability::Oath,
                    Capability::Piv,
                    Capability::Otp
                ]
            );
            assert!(!device.has_capability(&Capability::OpenPgp));
        } else {
            assert_eq!(device.capabilities, vec![Capability::Fido2]);
        }
    }
}

#[test]
fn the_default_source_reports_two_mock_devices() {
    let discovery = MockDiscovery::new();
    let devices = discovery.scan().unwrap();
    assert_eq!(devices[0].id, "mock-yubikey-1");
    assert_eq!(devices[0].vendor_id, 0x1050);
    assert_eq!(devices[0].product_id, 0x0407);
    assert_eq!(devices[0].name, "Yubico YubiKey");
    assert_eq!(devices[1].id, "mock-canokey-1");
    assert_eq!(devices[1].vendor_id, 0x20A0);
    assert_eq!(devices[1].product_id, 0x42D4);
    assert!(discovery.is_device_available("mock-canokey-1").unwrap());
    assert!(!discovery.is_device_available("mock-canokey-").unwrap());
    assert!(!discovery.is_device_available("").unwrap());

    let other: MockDiscovery = Default::default();
    assert_eq!(timeless(other.scan().unwrap()), timeless(devices));
    assert_eq!(create_platform_discovery().scan().unwrap().len(), 2);
}

// The devices with the time at which each was seen set aside.
fn timeless(mut devices: Vec<DeviceInfo>) -> Vec<DeviceInfo> {
    for d in devices.iter_mut() {
        d.last_seen = Timestamp { secs: 0, nanos: 0 };
    }
    devices
}

#[test]
fn a_scan_reports_the_devices_again_and_again() {
    let given = vec![
        create_mock_device("b", DeviceType::Generic, 1, 2),
        create_mock_device("a", DeviceType::SoloKey, 3, 4),
        create_mock_device("b", DeviceType::YubiKey, 5, 6),
    ];
    let discovery = MockDiscovery::with_devices(given.clone());
    assert_eq!(discovery.scan().unwrap(), given);
    assert_eq!(discovery.scan().unwrap(), given);
    assert_eq!(clone_devices(&given), given);
    assert!(clone_devices(&Vec::new()).is_empty());
    assert!(MockDiscovery::with_devices(Vec::new()).scan().unwrap().is_empty());
}
