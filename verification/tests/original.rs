use ble_network_upgrade::ble::BleEvent;
use ble_network_upgrade::identity::NodeIdentity;
use ble_network_upgrade::transport::{ActiveTransport, TransportManager};

#[test]
fn test_ble_event_creation() {
    let event = BleEvent::PeerDiscovered {
        address: "AA:BB:CC:DD:EE:FF".to_string(),
        rssi: -50,
        adv_data: vec![1, 2, 3],
    };

    match event {
        BleEvent::PeerDiscovered { address, rssi, .. } => {
            assert_eq!(address, "AA:BB:CC:DD:EE:FF");
            assert_eq!(rssi, -50);
        }
        _ => panic!("Wrong event type"),
    }
}

#[test]
fn test_identity_generation() {
    let identity = NodeIdentity::generate();
    assert!(!identity.public_key_bytes.is_empty());
    assert_eq!(identity.short_id().len(), 8);
}

#[test]
fn test_transport_upgrade() {
    let mut manager = TransportManager::new();

    // Initially BLE
    assert!(matches!(manager.get_active_transport(), ActiveTransport::Ble));

    // Upgrade to MultiPeer
    manager
        .upgrade_to_multipeer("test_peer")
        .expect("Upgrade failed");

    assert!(matches!(
        manager.get_active_transport(),
        ActiveTransport::MultiPeerConnectivity
    ));

    // Check session
    let session = manager.get_session();
    assert!(session.is_some());
}

#[test]
fn test_fallback_to_ble() {
    let mut manager = TransportManager::new();

    manager
        .upgrade_to_multipeer("test_peer")
        .expect("Upgrade failed");
    manager.fallback_to_ble();

    assert!(matches!(manager.get_active_transport(), ActiveTransport::Ble));
}
