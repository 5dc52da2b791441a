use std::time::Duration;
use ykey::{DeviceReply, Fido2Client};
use ykey::{
    Capability, DeviceCreator, DeviceFactory, DeviceInfo, DeviceManager, DeviceType,
    GenericFidoCreator, CanoKeyCreator, MockDevice, MockDiscovery, TransportType, YKeyError,
    YKeyResult, YubiKeyCreator,
};

type Manager = DeviceManager<MockDevice, MockDiscovery>;

fn create_test_device_info(id: &str, device_type: DeviceType) -> DeviceInfo {
    let mut info = DeviceInfo::new(
        id.to_string(),
        format!("Test Device {}", id),
        "Test Manufacturer".to_string(),
        "Test Product".to_string(),
        0x1234,
        0x5678,
        device_type,
        TransportType::Usb,
    );
    info.add_capability(Capability::Fido2);
    info
}

// What the owner of the sources and devices does around the manager.

fn scan(manager: &Manager) -> YKeyResult<Vec<DeviceInfo>> {
    let mut results = Vec::new();
    for discovery in manager.discoveries() {
        results.push(discovery.scan());
    }
    manager.scan_devices(results)
}

fn connect(manager: &mut Manager, device_id: &str) -> YKeyResult<()> {
    let devices = scan(manager)?;
    let mut device = manager.prepare_device(&devices, device_id)?;
    let attempt = device.connect();
    manager.connect_device(device_id, device, attempt)?;
    Ok(())
}

fn disconnect(manager: &mut Manager, device_id: &str) -> YKeyResult<()> {
    if let Some(mut device) = manager.disconnect_device(device_id) {
        device.disconnect()?;
    }
    Ok(())
}

fn disconnect_all(manager: &mut Manager) -> YKeyResult<()> {
    for mut connection in manager.disconnect_all() {
        if let Err(e) = connection.device.disconnect() {
            println!("Failed to disconnect device {}: {}", connection.id, e.to_string());
        }
    }
    Ok(())
}

#[test]
fn test_device_factory_creation() {
    let factory = DeviceFactory::new();

    assert!(factory.supports_device_type(&DeviceType::YubiKey));
    assert!(factory.supports_device_type(&DeviceType::CanoKey));
    assert!(factory.supports_device_type(&DeviceType::Generic));

    let supported_types = factory.supported_device_types();
    assert_eq!(supported_types.len(), 3);
}

#[test]
fn test_device_creation() {
    let factory = DeviceFactory::new();
    let device_info = create_test_device_info("test-yubikey", DeviceType::YubiKey);

    let device = factory.create_device(&device_info).unwrap();
    let info = device.info().unwrap();
    assert_eq!(info.id, "test-yubikey");
    assert_eq!(info.device_type, DeviceType::YubiKey);
}

#[test]
fn test_device_manager_basic_operations() {
    let mut manager = Manager::new();

    let devices = vec![
        create_test_device_info("device1", DeviceType::YubiKey),
        create_test_device_info("device2", DeviceType::CanoKey),
    ];

    let discovery = MockDiscovery::with_devices(devices.clone());
    manager.add_discovery(discovery);

    // Test device scanning
    let discovered = scan(&manager).unwrap();
    assert_eq!(discovered.len(), 2);
    assert_eq!(discovered[0].id, "device1");
    assert_eq!(discovered[1].id, "device2");

    // Test device count
    assert_eq!(manager.device_count(), 0);

    // Test connection
    connect(&mut manager, "device1").unwrap();
    assert_eq!(manager.device_count(), 1);
    assert!(manager.is_device_connected("device1"));
    assert!(!manager.is_device_connected("device2"));

    // Test connected device IDs
    let connected_ids = manager.connected_device_ids();
    assert_eq!(connected_ids.len(), 1);
    assert!(connected_ids.contains(&"device1".to_string()));

    // Test disconnection
    disconnect(&mut manager, "device1").unwrap();
    assert_eq!(manager.device_count(), 0);
    assert!(!manager.is_device_connected("device1"));
}

#[test]
fn test_device_manager_connect_multiple() {
    let mut manager = Manager::new();

    let devices = vec![
        create_test_device_info("device1", DeviceType::YubiKey),
        create_test_device_info("device2", DeviceType::CanoKey),
        create_test_device_info("device3", DeviceType::Generic),
    ];

    let discovery = MockDiscovery::with_devices(devices);
    manager.add_discovery(discovery);

    // Connect multiple devices
    connect(&mut manager, "device1").unwrap();
    connect(&mut manager, "device2").unwrap();
    connect(&mut manager, "device3").unwrap();

    assert_eq!(manager.device_count(), 3);

    // Disconnect all
    disconnect_all(&mut manager).unwrap();
    assert_eq!(manager.device_count(), 0);
}

#[test]
fn test_device_manager_error_handling() {
    let mut manager = Manager::new();

    // Test connecting to non-existent device
    let result = connect(&mut manager, "non-existent");
    assert!(result.is_err());
    assert!(matches!(result.unwrap_err(), YKeyError::DeviceNotFound(_)));

    // Test disconnecting non-connected device (should not error)
    let result = disconnect(&mut manager, "non-existent");
    assert!(result.is_ok());
}

#[test]
fn test_mock_device_operations() {
    let device_info = create_test_device_info("mock", DeviceType::Generic);
    let mut device = MockDevice::new(device_info.clone());

    // Test initial state
    assert!(!device.is_connected());

    // Test connection
    device.connect().unwrap();
    assert!(device.is_connected());

    // Test info
    let info = device.info().unwrap();
    assert_eq!(info.id, "mock");

    // Test communication
    let response = device.send_raw(&[0x01, 0x02]).unwrap();
    assert_eq!(response, vec![0x90, 0x00]);

    // Test disconnection
    device.disconnect().unwrap();
    assert!(!device.is_connected());

    // Test communication while disconnected
    let result = device.send_raw(&[0x01, 0x02]);
    assert!(result.is_err());
}

#[test]
fn test_mock_device() {
    let device_info = DeviceInfo::new(
        "mock-device".to_string(),
        "Mock Device".to_string(),
        "Mock Manufacturer".to_string(),
        "Mock Product".to_string(),
        0x1234,
        0x5678,
        DeviceType::Generic,
        TransportType::Usb,
    );

    let mut device = MockDevice::new(device_info.clone());

    assert!(!device.is_connected());
    device.connect().unwrap();
    assert!(device.is_connected());

    let info = device.info().unwrap();
    assert_eq!(info.id, "mock-device");

    let response = device.send_raw(&[0x01, 0x02]).unwrap();
    assert_eq!(response, vec![0x90, 0x00]);

    device.disconnect().unwrap();
    assert!(!device.is_connected());
}

#[test]
fn test_device_creators() {
    let yubikey_creator = YubiKeyCreator;
    let canokey_creator = CanoKeyCreator;
    let generic_creator = GenericFidoCreator;

    let yubikey_info = create_test_device_info("yubikey", DeviceType::YubiKey);
    let canokey_info = create_test_device_info("canokey", DeviceType::CanoKey);
    let generic_info = create_test_device_info("generic", DeviceType::Generic);

    // Test YubiKey creator
    assert!(yubikey_creator.supports(&yubikey_info));
    assert!(!yubikey_creator.supports(&canokey_info));
    assert_eq!(yubikey_creator.name(), "YubiKey Creator");

    // Test CanoKey creator
    assert!(canokey_creator.supports(&canokey_info));
    assert!(!canokey_creator.supports(&yubikey_info));
    assert_eq!(canokey_creator.name(), "CanoKey Creator");

    // Test Generic creator (supports everything)
    assert!(generic_creator.supports(&yubikey_info));
    assert!(generic_creator.supports(&canokey_info));
    assert!(generic_creator.supports(&generic_info));
    assert_eq!(generic_creator.name(), "Generic FIDO Creator");
}

#[test]
fn test_device_factory_fallback() {
    let factory = DeviceFactory::new();

    // Test unsupported device type falls back to generic
    let unsupported_info = create_test_device_info("unsupported", DeviceType::Nitrokey);
    let device = factory.create_device(&unsupported_info).unwrap();

    let info = device.info().unwrap();
    assert_eq!(info.device_type, DeviceType::Nitrokey);
}

// A device whose connection attempt fails, and its creator.

struct DeadDevice;

struct DeadCreator {
    rank: u32,
}

impl DeviceCreator<DeadDevice> for DeadCreator {
    fn create(&self, _info: &DeviceInfo) -> YKeyResult<DeadDevice> {
        Ok(DeadDevice)
    }

    fn supports(&self, info: &DeviceInfo) -> bool {
        info.vendor_id == 0x1234
    }

    fn priority(&self) -> u32 {
        self.rank
    }

    fn name(&self) -> &str {
        "Dead Creator"
    }
}

struct RefusingCreator;

impl DeviceCreator<DeadDevice> for RefusingCreator {
    fn create(&self, _info: &DeviceInfo) -> YKeyResult<DeadDevice> {
        Err(YKeyError::PermissionDenied("usb".to_string()))
    }

    fn supports(&self, _info: &DeviceInfo) -> bool {
        false
    }

    fn name(&self) -> &str {
        "Refusing Creator"
    }
}

#[test]
fn creators_have_priority_zero_unless_they_say_otherwise() {
    assert_eq!(DeviceCreator::<MockDevice>::priority(&YubiKeyCreator), 0);
    assert_eq!(DeviceCreator::<MockDevice>::priority(&CanoKeyCreator), 0);
    assert_eq!(DeviceCreator::<MockDevice>::priority(&GenericFidoCreator), 0);
    assert_eq!(RefusingCreator.priority(), 0);
    assert_eq!(DeadCreator { rank: 7 }.priority(), 7);
}

#[test]
fn built_in_creators_build_unconnected_devices() {
    let info = create_test_device_info("k", DeviceType::CanoKey);
    let device = CanoKeyCreator.create(&info).unwrap();
    assert!(!device.is_connected());
    assert_eq!(device.info().unwrap(), info);
    let device = YubiKeyCreator.create(&info).unwrap();
    assert_eq!(device.info().unwrap(), info);
    let device = GenericFidoCreator.create(&info).unwrap();
    assert_eq!(device.info().unwrap(), info);
}

#[test]
fn an_empty_factory_supports_nothing() {
    let factory: DeviceFactory<MockDevice> = DeviceFactory::empty();
    assert!(factory.supported_device_types().is_empty());
    for t in [
        DeviceType::YubiKey,
        DeviceType::CanoKey,
        DeviceType::Nitrokey,
        DeviceType::SoloKey,
        DeviceType::Generic,
    ] {
        assert!(!factory.supports_device_type(&t));
        assert_eq!(factory.resolve(t), None);
        let info = create_test_device_info("x", t);
        match factory.create_device(&info) {
            Err(YKeyError::UnsupportedDevice(u)) => assert_eq!(u, t),
            _ => panic!("expected UnsupportedDevice"),
        }
    }
}

#[test]
fn a_factory_without_generic_refuses_other_types() {
    let mut factory: DeviceFactory<MockDevice> = DeviceFactory::empty();
    factory.register(DeviceType::YubiKey, Box::new(YubiKeyCreator));
    assert_eq!(factory.resolve(DeviceType::YubiKey), Some(DeviceType::YubiKey));
    assert_eq!(factory.resolve(DeviceType::SoloKey), None);
    assert!(factory.create_device(&create_test_device_info("y", DeviceType::YubiKey)).is_ok());
    assert!(matches!(
        factory.create_device(&create_test_device_info("s", DeviceType::SoloKey)),
        Err(YKeyError::UnsupportedDevice(DeviceType::SoloKey))
    ));
}

#[test]
fn the_new_factory_resolves_every_type() {
    let factory = DeviceFactory::new();
    assert_eq!(
        factory.supported_device_types(),
        vec![DeviceType::YubiKey, DeviceType::CanoKey, DeviceType::Generic]
    );
    assert_eq!(factory.resolve(DeviceType::YubiKey), Some(DeviceType::YubiKey));
    assert_eq!(factory.resolve(DeviceType::CanoKey), Some(DeviceType::CanoKey));
    assert_eq!(factory.resolve(DeviceType::Generic), Some(DeviceType::Generic));
    assert_eq!(factory.resolve(DeviceType::Nitrokey), Some(DeviceType::Generic));
    assert_eq!(factory.resolve(DeviceType::SoloKey), Some(DeviceType::Generic));
    assert!(!factory.supports_device_type(&DeviceType::Nitrokey));
    let default_factory: DeviceFactory<MockDevice> = Default::default();
    assert_eq!(default_factory.supported_device_types().len(), 3);
}

#[test]
fn registering_a_type_again_replaces_its_creator() {
    let mut factory: DeviceFactory<DeadDevice> = DeviceFactory::empty();
    factory.register(DeviceType::SoloKey, Box::new(RefusingCreator));
    factory.register(DeviceType::Generic, Box::new(DeadCreator { rank: 0 }));
    let info = create_test_device_info("s", DeviceType::SoloKey);
    assert!(matches!(factory.create_device(&info), Err(YKeyError::PermissionDenied(_))));
    factory.register(DeviceType::SoloKey, Box::new(DeadCreator { rank: 1 }));
    assert!(factory.create_device(&info).is_ok());
    assert_eq!(
        factory.supported_device_types(),
        vec![DeviceType::SoloKey, DeviceType::Generic]
    );
}

fn manager_with(ids: &[&str]) -> Manager {
    let mut manager = Manager::new();
    let devices = ids.iter().map(|id| create_test_device_info(id, DeviceType::YubiKey)).collect();
    manager.add_discovery(MockDiscovery::with_devices(devices));
    manager
}

#[test]
fn a_new_manager_is_empty() {
    let manager = Manager::new();
    assert_eq!(manager.device_count(), 0);
    assert!(manager.connected_device_ids().is_empty());
    assert!(manager.discoveries().is_empty());
    assert_eq!(manager.factory().supported_device_types().len(), 3);
    assert!(scan(&manager).unwrap().is_empty());
    let other: Manager = Default::default();
    assert_eq!(other.device_count(), 0);
    let custom: DeviceManager<DeadDevice, MockDiscovery> =
        DeviceManager::with_factory(DeviceFactory::empty());
    assert!(custom.factory().supported_device_types().is_empty());
}

#[test]
fn sources_are_kept_in_their_order() {
    let mut manager = Manager::new();
    manager.add_discovery(MockDiscovery::with_devices(vec![create_test_device_info(
        "first",
        DeviceType::Generic,
    )]));
    manager.add_discovery(MockDiscovery::with_devices(vec![]));
    manager.add_discovery(MockDiscovery::new());
    assert_eq!(manager.discoveries().len(), 3);
    assert_eq!(manager.discoveries()[0].scan().unwrap()[0].id, "first");
    assert!(manager.discoveries()[1].scan().unwrap().is_empty());
    assert_eq!(manager.discoveries()[2].scan().unwrap().len(), 2);
}

#[test]
fn connecting_an_id_absent_from_the_scan_is_device_not_found() {
    let mut manager = manager_with(&["a", "b"]);
    match connect(&mut manager, "c") {
        Err(YKeyError::DeviceNotFound(id)) => assert_eq!(id, "c"),
        other => panic!("unexpected: {:?}", other),
    }
    assert_eq!(manager.device_count(), 0);
    let devices = scan(&manager).unwrap();
    assert!(matches!(
        manager.prepare_device(&devices, ""),
        Err(YKeyError::DeviceNotFound(id)) if id.is_empty()
    ));
    assert!(manager.prepare_device(&devices, "a").is_ok());
    assert!(matches!(
        manager.prepare_device(&Vec::new(), "a"),
        Err(YKeyError::DeviceNotFound(_))
    ));
}

#[test]
fn an_unsupported_type_leaves_the_table_unchanged() {
    let mut manager: DeviceManager<DeadDevice, MockDiscovery> =
        DeviceManager::with_factory(DeviceFactory::empty());
    let devices = vec![create_test_device_info("n", DeviceType::Nitrokey)];
    assert!(matches!(
        manager.prepare_device(&devices, "n"),
        Err(YKeyError::UnsupportedDevice(DeviceType::Nitrokey))
    ));
    assert_eq!(manager.device_count(), 0);
    assert!(manager.disconnect_device("n").is_none());
}

#[test]
fn a_failed_connection_attempt_leaves_the_table_unchanged() {
    let mut manager = manager_with(&["a", "b"]);
    connect(&mut manager, "a").unwrap();
    let devices = scan(&manager).unwrap();
    let device = manager.prepare_device(&devices, "b").unwrap();
    let attempt = Err(YKeyError::PermissionDenied("usb".to_string()));
    match manager.connect_device("b", device, attempt) {
        Err(YKeyError::PermissionDenied(what)) => assert_eq!(what, "usb"),
        _ => panic!("expected the error of the attempt"),
    }
    assert_eq!(manager.connected_device_ids(), vec!["a".to_string()]);
    assert!(!manager.is_device_connected("b"));

    // also for an identifier that is connected already
    let device = manager.prepare_device(&devices, "a").unwrap();
    let attempt = Err(YKeyError::timeout(3));
    assert!(manager.connect_device("a", device, attempt).is_err());
    assert_eq!(manager.connected_device_ids(), vec!["a".to_string()]);
    assert!(manager.with_device("a").unwrap().is_connected());
}

#[test]
fn connecting_twice_leaves_one_entry() {
    let mut manager = manager_with(&["a", "b"]);
    connect(&mut manager, "a").unwrap();
    connect(&mut manager, "b").unwrap();
    connect(&mut manager, "a").unwrap();
    assert_eq!(manager.device_count(), 2);
    assert_eq!(manager.connected_device_ids(), vec!["a".to_string(), "b".to_string()]);

    // the second device takes the place of the first, which is handed back
    let devices = scan(&manager).unwrap();
    let second = manager.prepare_device(&devices, "a").unwrap();
    let previous = manager.connect_device("a", second, Ok(())).unwrap();
    let previous = previous.unwrap();
    assert!(previous.is_connected());
    assert!(!manager.with_device("a").unwrap().is_connected());
    assert_eq!(manager.device_count(), 2);

    // a first connection hands nothing back
    let mut fresh = manager_with(&["z"]);
    let devices = scan(&fresh).unwrap();
    let device = fresh.prepare_device(&devices, "z").unwrap();
    assert!(fresh.connect_device("z", device, Ok(())).unwrap().is_none());
}

#[test]
fn disconnecting_an_absent_id_changes_nothing() {
    let mut manager = manager_with(&["a", "b"]);
    connect(&mut manager, "a").unwrap();
    connect(&mut manager, "b").unwrap();
    assert!(manager.disconnect_device("c").is_none());
    assert!(manager.disconnect_device("").is_none());
    assert!(manager.disconnect_device("A").is_none());
    assert_eq!(manager.connected_device_ids(), vec!["a".to_string(), "b".to_string()]);
    assert!(disconnect(&mut manager, "c").is_ok());

    let device = manager.disconnect_device("a").unwrap();
    assert_eq!(device.info().unwrap().id, "a");
    assert!(manager.disconnect_device("a").is_none());
    assert_eq!(manager.connected_device_ids(), vec!["b".to_string()]);
}

#[test]
fn with_device_reaches_the_connected_device() {
    let mut manager = manager_with(&["a", "b"]);
    connect(&mut manager, "a").unwrap();
    connect(&mut manager, "b").unwrap();
    {
        let device = manager.with_device("b").unwrap();
        assert_eq!(device.info().unwrap().id, "b");
        assert_eq!(device.send_raw(&[0x04]).unwrap(), vec![0x90, 0x00]);
        device.disconnect().unwrap();
    }
    // what was done to the device stays; the other entry is as it was
    assert!(!manager.with_device("b").unwrap().is_connected());
    assert!(manager.with_device("a").unwrap().is_connected());
    assert_eq!(manager.device_count(), 2);
    match manager.with_device("c") {
        Err(YKeyError::DeviceNotFound(id)) => assert_eq!(id, "c"),
        _ => panic!("expected DeviceNotFound"),
    }
    assert_eq!(manager.device_count(), 2);
}

#[test]
fn disconnect_all_hands_every_connection_back() {
    let mut manager = manager_with(&["a", "b", "c"]);
    connect(&mut manager, "c").unwrap();
    connect(&mut manager, "a").unwrap();
    let connections = manager.disconnect_all();
    let ids: Vec<&str> = connections.iter().map(|c| c.id.as_str()).collect();
    assert_eq!(ids, vec!["c", "a"]);
    assert!(connections.iter().all(|c| c.device.is_connected()));
    assert_eq!(manager.device_count(), 0);
    assert!(manager.connected_device_ids().is_empty());
    assert!(manager.disconnect_all().is_empty());
    assert!(!manager.is_device_connected("a"));
}

#[test]
fn a_timed_out_exchange_leaves_the_table_unaffected() {
    let mut manager = manager_with(&["a", "b"]);
    connect(&mut manager, "a").unwrap();
    connect(&mut manager, "b").unwrap();
    let before = manager.connected_device_ids();

    let mut engine = Fido2Client::with_timeout((), Duration::from_secs(3));
    let request = engine.get_info().unwrap();
    let _ = manager.with_device("a").unwrap().send_raw(&request);
    let result = engine.complete_reset(DeviceReply::TimedOut);
    assert!(matches!(result, Err(YKeyError::Timeout { seconds: 3 })));

    assert_eq!(manager.connected_device_ids(), before);
    assert_eq!(manager.device_count(), 2);
    assert!(manager.is_device_connected("a"));
    assert!(manager.with_device("a").unwrap().is_connected());
}

#[test]
fn a_failing_source_fails_the_scan() {
    let manager = Manager::new();
    let results = vec![
        Ok(vec![create_test_device_info("a", DeviceType::Generic)]),
        Err(YKeyError::PermissionDenied("first".to_string())),
        Ok(vec![create_test_device_info("b", DeviceType::Generic)]),
        Err(YKeyError::DeviceBusy("second".to_string())),
    ];
    match manager.scan_devices(results) {
        Err(YKeyError::PermissionDenied(what)) => assert_eq!(what, "first"),
        other => panic!("unexpected: {:?}", other),
    }
}

#[test]
fn a_creators_error_comes_back_from_preparing() {
    let mut factory: DeviceFactory<DeadDevice> = DeviceFactory::empty();
    factory.register(DeviceType::YubiKey, Box::new(RefusingCreator));
    factory.register(DeviceType::Generic, Box::new(DeadCreator { rank: 0 }));
    let manager: DeviceManager<DeadDevice, MockDiscovery> = DeviceManager::with_factory(factory);
    let devices = vec![
        create_test_device_info("y", DeviceType::YubiKey),
        create_test_device_info("n", DeviceType::Nitrokey),
    ];
    match manager.prepare_device(&devices, "y") {
        Err(YKeyError::PermissionDenied(what)) => assert_eq!(what, "usb"),
        _ => panic!("the creator's own error was expected"),
    }
    assert!(manager.prepare_device(&devices, "n").is_ok());
    assert_eq!(manager.device_count(), 0);
}

#[test]
fn preparing_takes_the_first_description_with_the_id() {
    let manager = Manager::new();
    let devices = vec![
        create_test_device_info("a", DeviceType::CanoKey),
        create_test_device_info("b", DeviceType::Nitrokey),
        create_test_device_info("a", DeviceType::YubiKey),
    ];
    let device = manager.prepare_device(&devices, "a").unwrap();
    assert!(!device.is_connected());
    let info = device.info().unwrap();
    assert_eq!(info.id, "a");
    assert_eq!(info.device_type, DeviceType::CanoKey);
    let other = manager.prepare_device(&devices, "b").unwrap().info().unwrap();
    assert_eq!(other.device_type, DeviceType::Nitrokey);
    assert_eq!(other.name, "Test Device b");
}
