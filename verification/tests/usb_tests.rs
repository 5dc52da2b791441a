use ykey::{
    Capability, DeviceInfo, DeviceType, FidoDeviceIds, FrontendDeviceInfo, MacOSUsbDiscovery,
    TransportType, UsbData, UsbNode, YKeyError,
};

fn node(
    name: Option<&str>,
    manufacturer: Option<&str>,
    vendor_id: Option<&str>,
    product_id: Option<&str>,
    items: Vec<UsbNode>,
) -> UsbNode {
    UsbNode {
        name: name.map(|s| s.to_string()),
        manufacturer: manufacturer.map(|s| s.to_string()),
        vendor_id: vendor_id.map(|s| s.to_string()),
        product_id: product_id.map(|s| s.to_string()),
        items,
    }
}

fn hub(items: Vec<UsbNode>) -> UsbNode {
    node(Some("Hub"), None, None, None, items)
}

fn yubikey() -> UsbNode {
    node(Some("YubiKey OTP+FIDO+CCID"), Some("Yubico"), Some("0x1050"), Some("0x0407"), vec![])
}

fn solo() -> UsbNode {
    node(None, None, Some("0x0483"), Some("0xa2ca"), vec![])
}

fn mouse() -> UsbNode {
    node(Some("Mouse"), Some("Acme"), Some("0x046d"), Some("0xc077"), vec![])
}

fn ids(devices: &[DeviceInfo]) -> Vec<&str> {
    devices.iter().map(|d| d.id.as_str()).collect()
}

#[test]
fn identify_device_type_answers_as_the_table() {
    assert_eq!(MacOSUsbDiscovery::identify_device_type(0x1050, 0x0010), Some(DeviceType::YubiKey));
    assert_eq!(MacOSUsbDiscovery::identify_device_type(0x1050, 0x0018), Some(DeviceType::YubiKey));
    assert_eq!(MacOSUsbDiscovery::identify_device_type(0x1050, 0x0030), Some(DeviceType::YubiKey));
    assert_eq!(MacOSUsbDiscovery::identify_device_type(0x1050, 0x0407), Some(DeviceType::YubiKey));
    assert_eq!(MacOSUsbDiscovery::identify_device_type(0x1050, 0x0410), Some(DeviceType::YubiKey));
    assert_eq!(MacOSUsbDiscovery::identify_device_type(0x20A0, 0x42D4), Some(DeviceType::CanoKey));
    assert_eq!(MacOSUsbDiscovery::identify_device_type(0x20A0, 0x42B1), Some(DeviceType::Nitrokey));
    assert_eq!(MacOSUsbDiscovery::identify_device_type(0x20A0, 0x42B2), Some(DeviceType::Nitrokey));
    assert_eq!(MacOSUsbDiscovery::identify_device_type(0x0483, 0xA2CA), Some(DeviceType::SoloKey));
    assert_eq!(MacOSUsbDiscovery::identify_device_type(0x1209, 0x5070), Some(DeviceType::SoloKey));
    assert_eq!(MacOSUsbDiscovery::identify_device_type(0x1209, 0xA2CA), None);
    assert_eq!(MacOSUsbDiscovery::identify_device_type(0x0483, 0x5070), None);
    assert_eq!(MacOSUsbDiscovery::identify_device_type(0, 0), None);
    for vendor_id in [0u16, 0x0483, 0x1050, 0x1209, 0x20A0, 0xFFFF] {
        for product_id in 0u16..=0xFFFF {
            assert_eq!(
                MacOSUsbDiscovery::identify_device_type(vendor_id, product_id),
                FidoDeviceIds::is_known_fido_device(vendor_id, product_id)
            );
        }
    }
    let _ = MacOSUsbDiscovery::new();
}

#[test]
fn device_identifiers_are_made_of_type_vendor_and_product() {
    assert_eq!(
        MacOSUsbDiscovery::device_id(DeviceType::YubiKey, 0x1050, 0x0407),
        "yubikey-1050-0407"
    );
    assert_eq!(MacOSUsbDiscovery::device_id(DeviceType::SoloKey, 0x0483, 0xA2CA), "solokey-0483-a2ca");
    assert_eq!(MacOSUsbDiscovery::device_id(DeviceType::Generic, 0, 0xF), "generic-0000-000f");
    for t in [
        DeviceType::YubiKey,
        DeviceType::CanoKey,
        DeviceType::Nitrokey,
        DeviceType::SoloKey,
        DeviceType::Generic,
    ] {
        for (v, p) in [(0u16, 0u16), (1, 0xFFFF), (0xABCD, 0x00EF), (0xFFFF, 0x1000)] {
            assert_eq!(
                MacOSUsbDiscovery::device_id(t, v, p),
                format!("{}-{:04x}-{:04x}", format!("{:?}", t).to_lowercase(), v, p)
            );
        }
    }
}

#[test]
fn an_item_that_is_a_known_device_is_described() {
    let mut devices = Vec::new();
    MacOSUsbDiscovery::parse_usb_item(&yubikey(), &mut devices);
    assert_eq!(devices.len(), 1);
    let d = &devices[0];
    assert_eq!(d.id, "yubikey-1050-0407");
    assert_eq!(d.name, "YubiKey OTP+FIDO+CCID");
    assert_eq!(d.manufacturer, "Yubico");
    assert_eq!(d.product_name, "YubiKey OTP+FIDO+CCID");
    assert_eq!(d.serial_number, None);
    assert_eq!(d.vendor_id, 0x1050);
    assert_eq!(d.product_id, 0x0407);
    assert_eq!(d.device_type, DeviceType::YubiKey);
    assert_eq!(d.transport, TransportType::Usb);
    assert_eq!(
        d.capabilities,
        vec![Capability::Fido2, Capability::Fido1, Capability::Oath, Capability::Piv, Capability::Otp]
    );
    assert_eq!(d.firmware_version, None);
}

#[test]
fn missing_texts_get_their_defaults() {
    let mut devices = Vec::new();
    MacOSUsbDiscovery::parse_usb_item(&solo(), &mut devices);
    assert_eq!(devices.len(), 1);
    let d = &devices[0];
    assert_eq!(d.id, "solokey-0483-a2ca");
    assert_eq!(d.name, "Unknown Device");
    assert_eq!(d.manufacturer, "Unknown");
    assert_eq!(d.product_name, "Unknown");
    assert_eq!(d.device_type, DeviceType::SoloKey);
    assert_eq!(d.capabilities, vec![Capability::Fido2]);
}

#[test]
fn items_that_are_no_known_device_are_passed_over() {
    let cases = vec![
        mouse(),
        hub(vec![]),
        node(Some("n"), None, Some("0x1050"), None, vec![]),
        node(Some("n"), None, None, Some("0x0407"), vec![]),
        node(Some("n"), None, Some("0x1050"), Some("0x0408"), vec![]),
        node(Some("n"), None, Some("0x1050 (Yubico)"), Some("0x0407"), vec![]),
        node(Some("n"), None, Some("1050h"), Some("0407"), vec![]),
        node(Some("n"), None, Some(""), Some(""), vec![]),
        node(Some("n"), None, Some("0x11050"), Some("0x0407"), vec![]),
        // the pair the other way round
        node(Some("n"), None, Some("0x0407"), Some("0x1050"), vec![]),
    ];
    for case in cases {
        let mut devices = Vec::new();
        MacOSUsbDiscovery::parse_usb_item(&case, &mut devices);
        assert!(devices.is_empty());
    }
}

#[test]
fn identifiers_are_read_with_or_without_prefix() {
    for (vendor, product) in
        [("1050", "0407"), ("0x1050", "407"), ("0x0x1050", "0x0x0407"), ("+1050", "0x+407")]
    {
        let mut devices = Vec::new();
        let item = node(None, None, Some(vendor), Some(product), vec![]);
        MacOSUsbDiscovery::parse_usb_item(&item, &mut devices);
        assert_eq!(ids(&devices), vec!["yubikey-1050-0407"]);
    }
}

#[test]
fn the_item_comes_before_the_items_below_it() {
    let canokey = node(Some("CanoKey"), None, Some("0x20a0"), Some("0x42d4"), vec![]);
    let nitrokey = node(Some("Nitrokey"), None, Some("0x20A0"), Some("0x42B2"), vec![]);
    let mut parent = yubikey();
    parent.items = vec![hub(vec![canokey, mouse()]), solo(), hub(vec![hub(vec![nitrokey])])];
    let tree = hub(vec![mouse(), parent, hub(vec![])]);

    let mut devices = Vec::new();
    MacOSUsbDiscovery::parse_usb_item(&tree, &mut devices);
    assert_eq!(
        ids(&devices),
        vec!["yubikey-1050-0407", "canokey-20a0-42d4", "solokey-0483-a2ca", "nitrokey-20a0-42b2"]
    );
}

#[test]
fn what_the_list_held_stays_in_front() {
    let mut devices = Vec::new();
    MacOSUsbDiscovery::parse_usb_item(&solo(), &mut devices);
    let first = devices[0].clone();
    MacOSUsbDiscovery::parse_usb_item(&hub(vec![yubikey(), yubikey()]), &mut devices);
    assert_eq!(
        ids(&devices),
        vec!["solokey-0483-a2ca", "yubikey-1050-0407", "yubikey-1050-0407"]
    );
    assert_eq!(devices[0], first);
    MacOSUsbDiscovery::parse_usb_item(&mouse(), &mut devices);
    assert_eq!(devices.len(), 3);
}

#[test]
fn data_is_a_list_one_item_or_nothing() {
    let mut devices = Vec::new();
    MacOSUsbDiscovery::parse_usb_data(&UsbData::Array(vec![solo(), hub(vec![yubikey()])]), &mut devices);
    assert_eq!(ids(&devices), vec!["solokey-0483-a2ca", "yubikey-1050-0407"]);

    let mut devices = Vec::new();
    MacOSUsbDiscovery::parse_usb_data(&UsbData::Object(hub(vec![yubikey()])), &mut devices);
    assert_eq!(ids(&devices), vec!["yubikey-1050-0407"]);

    let mut devices = Vec::new();
    MacOSUsbDiscovery::parse_usb_data(&UsbData::Array(vec![]), &mut devices);
    MacOSUsbDiscovery::parse_usb_data(&UsbData::Other, &mut devices);
    assert!(devices.is_empty());
}

const REPORT: &str = r#"{
  "SPUSBDataType": [
    {
      "_name": "USB31Bus",
      "host_controller": "AppleT8103USBXHCI",
      "_items": [
        {
          "_name": "YubiKey OTP+FIDO+CCID",
          "manufacturer": "Yubico",
          "product_id": "0x0407",
          "vendor_id": "0x1050",
          "serial_num": 17,
          "_items": [
            { "_name": "Inner", "product_id": "0x42d4", "vendor_id": "0x20a0" }
          ]
        },
        { "_name": "Keyboard", "manufacturer": "Acme", "product_id": "0x0001", "vendor_id": "0x05ac" },
        { "_name": 5, "manufacturer": ["x"], "product_id": "0xa2ca", "vendor_id": "0x0483" },
        { "_name": "Numbers", "product_id": 1031, "vendor_id": 4176 },
        { "_name": "No array", "_items": { "product_id": "0x0407", "vendor_id": "0x1050" } }
      ]
    },
    { "_name": "Second bus" },
    "stray",
    { "product_id": "0x5070", "vendor_id": "0x1209" }
  ]
}"#;

#[test]
fn a_report_is_scanned() {
    let discovery = MacOSUsbDiscovery::new();
    let devices = discovery.scan_usb_devices(REPORT.as_bytes()).unwrap();
    assert_eq!(
        ids(&devices),
        vec!["yubikey-1050-0407", "canokey-20a0-42d4", "solokey-0483-a2ca", "solokey-1209-5070"]
    );
    assert_eq!(devices[0].name, "YubiKey OTP+FIDO+CCID");
    assert_eq!(devices[0].manufacturer, "Yubico");
    assert_eq!(devices[1].name, "Inner");
    assert_eq!(devices[1].manufacturer, "Unknown");
    // a name that is no string counts as missing
    assert_eq!(devices[2].name, "Unknown Device");
    assert_eq!(devices[2].manufacturer, "Unknown");
    assert_eq!(devices[2].product_name, "Unknown");
    for d in &devices {
        assert_eq!(d.transport, TransportType::Usb);
        assert_eq!(FidoDeviceIds::is_known_fido_device(d.vendor_id, d.product_id), Some(d.device_type));
        assert!(d.has_capability(&Capability::Fido2));
        assert_eq!(d.id, MacOSUsbDiscovery::device_id(d.device_type, d.vendor_id, d.product_id));
    }
}

#[test]
fn a_report_with_one_object_is_scanned() {
    let report = r#"{"SPUSBDataType": {"_name": "bus", "_items": [{"vendor_id": "0x1050", "product_id": "0x0010"}]}}"#;
    let devices = MacOSUsbDiscovery::new().scan_usb_devices(report.as_bytes()).unwrap();
    assert_eq!(ids(&devices), vec!["yubikey-1050-0010"]);
}

#[test]
fn a_report_without_usb_data_holds_no_device() {
    let discovery = MacOSUsbDiscovery::new();
    for report in [
        "{}",
        "[]",
        "null",
        "7",
        r#"{"SPUSBDataType": null}"#,
        r#"{"SPUSBDataType": "text"}"#,
        r#"{"SPUSBDataType": 5}"#,
        r#"{"SPUSBDataType": []}"#,
        r#"{"SPUSBDataType": {}}"#,
        r#"{"Other": [{"vendor_id": "0x1050", "product_id": "0x0407"}]}"#,
        r#"[{"vendor_id": "0x1050", "product_id": "0x0407"}]"#,
    ] {
        assert!(discovery.scan_usb_devices(report.as_bytes()).unwrap().is_empty(), "{}", report);
    }
}

#[test]
fn a_report_that_is_not_json_is_a_communication_error() {
    let discovery = MacOSUsbDiscovery::new();
    for report in ["", "{", "not json", r#"{"SPUSBDataType": [}"#] {
        match discovery.scan_usb_devices(report.as_bytes()) {
            Err(YKeyError::CommunicationError(m)) => {
                assert!(m.starts_with("Failed to parse system_profiler output: "), "{}", m);
                assert!(m.len() > "Failed to parse system_profiler output: ".len());
                let expected = serde_json::from_slice::<serde_json::Value>(report.as_bytes())
                    .unwrap_err()
                    .to_string();
                assert_eq!(m, format!("Failed to parse system_profiler output: {}", expected));
            }
            other => panic!("unexpected: {:?}", other),
        }
    }
    let error = discovery.scan_usb_devices(b"\xff\xfe").unwrap_err();
    assert!(error.is_retryable());
}

#[test]
fn a_description_is_turned_for_the_front_end() {
    let mut info = DeviceInfo::new(
        "yubikey-1050-0407".to_string(),
        "YubiKey".to_string(),
        "Yubico".to_string(),
        "YubiKey 5".to_string(),
        0x1050,
        0x0407,
        DeviceType::YubiKey,
        TransportType::Usb,
    );
    info.add_capability(Capability::Fido2);
    info.add_capability(Capability::OpenPgp);
    info.add_capability(Capability::Otp);
    let front = FrontendDeviceInfo::from(info);
    assert_eq!(front.id, "yubikey-1050-0407");
    assert_eq!(front.name, "YubiKey");
    assert_eq!(front.manufacturer, "Yubico");
    assert_eq!(front.product_name, "YubiKey 5");
    assert_eq!(front.device_type, "YubiKey");
    assert_eq!(front.transport, "Usb");
    assert_eq!(front.vendor_id, 0x1050);
    assert_eq!(front.product_id, 0x0407);
    assert_eq!(front.capabilities, vec!["Fido2", "OpenPgp", "Otp"]);
    assert!(!front.is_connected);

    let bare = DeviceInfo::new(
        String::new(),
        String::new(),
        String::new(),
        String::new(),
        0,
        0,
        DeviceType::Generic,
        TransportType::Hybrid,
    );
    let front: FrontendDeviceInfo = bare.into();
    assert_eq!(front.device_type, "Generic");
    assert_eq!(front.transport, "Hybrid");
    assert!(front.capabilities.is_empty());
}
