use ykey::discovery::{dedup_by_id, find_device, is_device_available, merge_scans};
use ykey::{DeviceInfo, DeviceType, Timestamp, TransportType, YKeyError};

fn device(id: &str, name: &str) -> DeviceInfo {
    DeviceInfo::seen_at(
        id.to_string(),
        name.to_string(),
        "M".to_string(),
        "P".to_string(),
        1,
        2,
        DeviceType::Generic,
        TransportType::Usb,
        Timestamp { secs: 0, nanos: 0 },
    )
}

fn ids(devices: &[DeviceInfo]) -> Vec<&str> {
    devices.iter().map(|d| d.id.as_str()).collect()
}

// Removing duplicates with the standard library: a stable sort, then the
// adjacent duplicates removed.
fn reference(mut all: Vec<DeviceInfo>) -> Vec<DeviceInfo> {
    all.sort_by(|a, b| a.id.cmp(&b.id));
    all.dedup_by(|a, b| a.id == b.id);
    all
}

#[test]
fn two_sources_yield_a_b_c() {
    let results = vec![
        Ok(vec![device("a", "1"), device("b", "1")]),
        Ok(vec![device("b", "2"), device("c", "2")]),
    ];
    let merged = merge_scans(results).unwrap();
    assert_eq!(merged.len(), 3);
    assert_eq!(ids(&merged), vec!["a", "b", "c"]);
    // the entry of the first source wins
    assert_eq!(merged[1].name, "1");
}

#[test]
fn the_order_of_the_sources_decides_which_entry_wins_only() {
    let results = vec![
        Ok(vec![device("b", "2"), device("c", "2")]),
        Ok(vec![device("a", "1"), device("b", "1")]),
    ];
    let merged = merge_scans(results).unwrap();
    assert_eq!(ids(&merged), vec!["a", "b", "c"]);
    assert_eq!(merged[1].name, "2");
}

#[test]
fn no_source_and_empty_sources_yield_nothing() {
    assert!(merge_scans(Vec::new()).unwrap().is_empty());
    assert!(merge_scans(vec![Ok(Vec::new()), Ok(Vec::new())]).unwrap().is_empty());
    assert!(dedup_by_id(Vec::new()).is_empty());
}

#[test]
fn the_first_failure_is_reported() {
    let results = vec![
        Ok(vec![device("a", "1")]),
        Err(YKeyError::communication("one")),
        Err(YKeyError::communication("two")),
    ];
    match merge_scans(results) {
        Err(YKeyError::CommunicationError(m)) => assert_eq!(m, "one"),
        other => panic!("unexpected: {:?}", other),
    }
    let results = vec![Err(YKeyError::UserCancelled), Ok(vec![device("a", "1")])];
    assert!(matches!(merge_scans(results), Err(YKeyError::UserCancelled)));
}

#[test]
fn identifiers_are_ordered_by_their_bytes() {
    let all = vec![
        device("device2", ""),
        device("device10", ""),
        device("Device", ""),
        device("", ""),
        device("device", ""),
        device("é", ""),
        device("z", ""),
        device("device1", ""),
    ];
    let out = dedup_by_id(all.clone());
    assert_eq!(
        ids(&out),
        vec!["", "Device", "device", "device1", "device10", "device2", "z", "é"]
    );
    assert_eq!(out, reference(all));
}

#[test]
fn the_first_entry_of_each_identifier_is_kept() {
    let all = vec![
        device("b", "first b"),
        device("a", "first a"),
        device("b", "second b"),
        device("a", "second a"),
        device("b", "third b"),
        device("c", "only c"),
    ];
    let out = dedup_by_id(all.clone());
    assert_eq!(ids(&out), vec!["a", "b", "c"]);
    assert_eq!(out[0].name, "first a");
    assert_eq!(out[1].name, "first b");
    assert_eq!(out[2].name, "only c");
    assert_eq!(out, reference(all));
}

#[test]
fn dedup_agrees_with_sort_and_dedup() {
    let mut state: u64 = 0x2545F4914F6CDD1D;
    for round in 0..200 {
        let len = (round % 17) as usize;
        let mut all = Vec::new();
        for n in 0..len {
            state ^= state << 13;
            state ^= state >> 7;
            state ^= state << 17;
            let id = format!("id-{}", state % 7);
            all.push(device(&id, &format!("{}-{}", round, n)));
        }
        let out = dedup_by_id(all.clone());
        assert_eq!(out, reference(all.clone()));
        // a second pass changes nothing
        assert_eq!(dedup_by_id(out.clone()), out);
        for w in out.windows(2) {
            assert!(w[0].id < w[1].id);
        }
        for d in &all {
            assert!(out.iter().any(|o| o.id == d.id));
        }
    }
}

#[test]
fn find_device_finds_the_first_match() {
    let devices = vec![device("a", "1"), device("b", "2"), device("a", "3")];
    assert_eq!(find_device(&devices, "a"), Some(0));
    assert_eq!(find_device(&devices, "b"), Some(1));
    assert_eq!(find_device(&devices, "c"), None);
    assert_eq!(find_device(&devices, ""), None);
    assert_eq!(find_device(&devices, "A"), None);
    assert_eq!(find_device(&devices, "ab"), None);
    assert_eq!(find_device(&Vec::new(), "a"), None);
    assert!(is_device_available(&devices, "b"));
    assert!(!is_device_available(&devices, "bb"));
}
