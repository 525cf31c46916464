use ble_network_upgrade::transport::{ActiveTransport, TransportManager};

#[test]
fn new_manager_starts_on_ble_without_session() {
    let m = TransportManager::new();
    assert_eq!(m.get_active_transport(), ActiveTransport::Ble);
    assert!(m.get_session().is_none());
    assert!(m.is_ble_fallback_enabled());
    let d = TransportManager::default();
    assert_eq!(d.get_active_transport(), ActiveTransport::Ble);
}

#[test]
fn upgrade_records_secure_session() {
    let mut m = TransportManager::new();
    m.upgrade_to_multipeer("peer123").unwrap();
    let s = m.get_session().unwrap();
    assert_eq!(s.peer_id, "peer123");
    assert!(s.is_secure);
}

#[test]
fn fallback_keeps_session_and_setting() {
    let mut m = TransportManager::new();
    m.upgrade_to_multipeer("peer123").unwrap();
    m.fallback_to_ble();
    assert_eq!(m.get_active_transport(), ActiveTransport::Ble);
    assert_eq!(m.get_session().unwrap().peer_id, "peer123");
    assert!(m.is_ble_fallback_enabled());
    m.upgrade_to_multipeer("peer123").unwrap();
    assert_eq!(m.get_active_transport(), ActiveTransport::MultiPeerConnectivity);
}

#[test]
fn latest_upgrade_wins() {
    let mut m = TransportManager::new();
    m.upgrade_to_multipeer("a").unwrap();
    m.upgrade_to_multipeer("b").unwrap();
    assert_eq!(m.get_session().unwrap().peer_id, "b");
}

#[test]
fn send_data_hands_over_every_byte() {
    let mut m = TransportManager::new();
    assert_eq!(m.send_data(b"Hello").unwrap(), 5);
    m.upgrade_to_multipeer("p").unwrap();
    assert_eq!(m.send_data(b"Larger message over MultiPeer").unwrap(), 29);
    assert_eq!(m.send_data(&[]).unwrap(), 0);
}
