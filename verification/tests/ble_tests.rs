use ble_network_upgrade::ble::{
    advertised_local_name, connect_event, disconnect_event, discovery_event, starts_with,
    BleError, BleEvent,
};
use ble_network_upgrade::identity::NodeIdentity;

#[test]
fn advertised_name_is_prefix_and_hex_of_first_four_bytes() {
    assert_eq!(advertised_local_name(&[0xab, 0x01, 0x2c, 0xff, 9, 9, 9, 9]), "libp2p-ab012cff");
    assert_eq!(advertised_local_name(&[0; 8]), "libp2p-00000000");
}

#[test]
fn own_advertisement_is_discovered() {
    let id = NodeIdentity { peer_id: "12D3KooWexample".to_string(), public_key_bytes: vec![] };
    let name = advertised_local_name(&id.short_id());
    let e = discovery_event("AA:BB:CC:DD:EE:FF".to_string(), Some(name), Some(-40), None, false);
    assert!(matches!(e, Some(BleEvent::PeerDiscovered { .. })));
}

#[test]
fn discovery_reports_new_named_peers() {
    match discovery_event(
        "AA:BB:CC:DD:EE:FF".to_string(),
        Some("libp2p-12345678".to_string()),
        Some(-50),
        Some(vec![7, 8]),
        false,
    ) {
        Some(BleEvent::PeerDiscovered { address, rssi, adv_data }) => {
            assert_eq!(address, "AA:BB:CC:DD:EE:FF");
            assert_eq!(rssi, -50);
            assert_eq!(adv_data, vec![7, 8]);
        }
        _ => panic!("expected a discovery"),
    }
}

#[test]
fn discovery_defaults_for_missing_rssi_and_data() {
    match discovery_event("11:22".to_string(), Some("libp2p-node".to_string()), None, None, false) {
        Some(BleEvent::PeerDiscovered { rssi, adv_data, .. }) => {
            assert_eq!(rssi, -127);
            assert!(adv_data.is_empty());
        }
        _ => panic!("expected a discovery"),
    }
}

#[test]
fn discovery_skips_unaddressed_foreign_and_known_devices() {
    let name = || Some("libp2p-x".to_string());
    assert!(discovery_event("00:00:00:00:00:00".to_string(), name(), None, None, false).is_none());
    assert!(discovery_event("AA".to_string(), Some("other".to_string()), None, None, false).is_none());
    assert!(discovery_event("AA".to_string(), None, None, None, false).is_none());
    assert!(discovery_event("AA".to_string(), Some("libp2p".to_string()), None, None, false).is_none());
    assert!(discovery_event("AA".to_string(), name(), None, None, true).is_none());
}

#[test]
fn prefix_check() {
    assert!(starts_with("libp2p-node", "libp2p-"));
    assert!(starts_with("abc", ""));
    assert!(!starts_with("lib", "libp2p-"));
    assert!(!starts_with("Libp2p-x", "libp2p-"));
}

#[test]
fn connect_needs_a_discovered_peripheral() {
    match connect_event("AA:BB", true) {
        Ok(BleEvent::PeerConnected { address }) => assert_eq!(address, "AA:BB"),
        _ => panic!("expected a connection"),
    }
    match connect_event("AA:BB", false) {
        Err(e) => assert_eq!(e.message(), "Peripheral AA:BB not found"),
        Ok(_) => panic!("expected an error"),
    }
}

#[test]
fn disconnect_only_known_peripherals() {
    assert!(matches!(disconnect_event("X", true), Some(BleEvent::PeerDisconnected { .. })));
    assert!(disconnect_event("X", false).is_none());
}

#[test]
fn ble_error_messages() {
    assert_eq!(
        BleError::AdvertisingUnsupported.message(),
        "BLE advertising backend is only available on macOS"
    );
    assert_eq!(BleError::NoAdapter.message(), "No BLE adapter found");
}

use ble_network_upgrade::ble::{PeerDiscovery, ScannedDevice};

fn device(address: &str, name: Option<&str>) -> ScannedDevice {
    ScannedDevice {
        address: address.to_string(),
        local_name: name.map(|n| n.to_string()),
        rssi: None,
        manufacturer_data: None,
    }
}

#[test]
fn discovery_reports_each_address_once() {
    let mut d = PeerDiscovery::new();
    let scan = || vec![device("AA", Some("other")), device("BB", Some("libp2p-1")), device("CC", Some("libp2p-2"))];
    match d.poll(scan()) {
        Some(BleEvent::PeerDiscovered { address, .. }) => assert_eq!(address, "BB"),
        _ => panic!("expected BB"),
    }
    match d.poll(scan()) {
        Some(BleEvent::PeerDiscovered { address, .. }) => assert_eq!(address, "CC"),
        _ => panic!("expected CC"),
    }
    assert!(d.poll(scan()).is_none());
    assert_eq!(d.known_addresses(), vec!["BB".to_string(), "CC".to_string()]);
    assert!(d.is_known("BB"));
    assert!(!d.is_known("AA"));
}

#[test]
fn queued_events_come_first_in_order() {
    let mut d = PeerDiscovery::new();
    d.poll(vec![device("BB", Some("libp2p-1"))]);
    assert!(!d.has_pending());
    d.connect("BB").unwrap();
    d.disconnect("BB");
    d.disconnect("ZZ");
    assert!(d.has_pending());
    let scan = vec![device("CC", Some("libp2p-2"))];
    assert!(matches!(d.poll(scan), Some(BleEvent::PeerConnected { .. })));
    assert!(matches!(d.poll(Vec::new()), Some(BleEvent::PeerDisconnected { .. })));
    assert!(d.poll(Vec::new()).is_none());
    match d.connect("ZZ") {
        Err(e) => assert_eq!(e.message(), "Peripheral ZZ not found"),
        Ok(_) => panic!("expected an error"),
    }
    assert!(!d.has_pending());
}
