use ble_network_upgrade::protocol::{ProtocolMessage, TransportCapability};

#[test]
fn labels_name_each_message_kind() {
    let cases = vec![
        (
            ProtocolMessage::Hello {
                peer_id_short: [1, 2, 3, 4, 5, 6, 7, 8],
                capabilities: vec![TransportCapability::Ble],
                max_message_size: 512,
            },
            "Hello",
        ),
        (ProtocolMessage::HelloAck { peer_id_short: [0; 8] }, "HelloAck"),
        (
            ProtocolMessage::ProposeUpgrade {
                proposed_transport: TransportCapability::MultiPeerConnectivity,
                upgrade_token: 123,
            },
            "ProposeUpgrade",
        ),
        (ProtocolMessage::AcceptUpgrade { upgrade_token: 123 }, "AcceptUpgrade"),
        (
            ProtocolMessage::RejectUpgrade { upgrade_token: 1, reason: "busy".to_string() },
            "RejectUpgrade",
        ),
        (ProtocolMessage::Heartbeat, "Heartbeat"),
        (ProtocolMessage::Data(vec![1, 2]), "Data"),
        (
            ProtocolMessage::TransportSwitchNotifier { new_transport: TransportCapability::Ble },
            "TransportSwitch",
        ),
    ];
    for (msg, label) in cases {
        assert_eq!(msg.label(), label);
    }
}

#[test]
fn capability_display_names() {
    assert_eq!(TransportCapability::Ble.to_string(), "BLE");
    assert_eq!(TransportCapability::MultiPeerConnectivity.to_string(), "MultiPeer");
    assert_eq!(TransportCapability::SmartBluetooth.to_string(), "SmartBluetooth");
}
