//! Messages that peers exchange over BLE to negotiate a transport upgrade.
use vstd::prelude::*;

verus! {

/// Capabilities that a node supports for transport upgrade.
#[derive(Clone, Copy, Debug, PartialEq, Eq, Structural)]
pub enum TransportCapability {
    /// BLE only
    Ble,
    /// MultiPeer Connectivity (macOS/iOS specific)
    MultiPeerConnectivity,
    /// Future: Bluetooth BR/EDR
    SmartBluetooth,
}

/// The human-readable name of a capability.
pub open spec fn capability_text(c: TransportCapability) -> Seq<char> {
    match c {
        TransportCapability::Ble => "BLE"@,
        TransportCapability::MultiPeerConnectivity => "MultiPeer"@,
        TransportCapability::SmartBluetooth => "SmartBluetooth"@,
    }
}

impl TransportCapability {
    /// The human-readable name of the capability, as shown in logs.
    pub fn to_string(&self) -> (s: String)
        ensures
            s@ == capability_text(*self),
    {
        match self {
            TransportCapability::Ble => "BLE".to_owned(),
            TransportCapability::MultiPeerConnectivity => "MultiPeer".to_owned(),
            TransportCapability::SmartBluetooth => "SmartBluetooth".to_owned(),
        }
    }
}

/// Protocol message types for BLE communication.
#[derive(Clone, Debug)]
pub enum ProtocolMessage {
    /// Initial hello with identity and capabilities
    Hello { peer_id_short: [u8; 8], capabilities: Vec<TransportCapability>, max_message_size: u16 },
    /// Acknowledge connection
    HelloAck { peer_id_short: [u8; 8] },
    /// Propose transport upgrade
    ProposeUpgrade { proposed_transport: TransportCapability, upgrade_token: u32 },
    /// Accept upgrade proposal
    AcceptUpgrade { upgrade_token: u32 },
    /// Reject upgrade proposal
    RejectUpgrade { upgrade_token: u32, reason: String },
    /// Heartbeat to keep connection alive
    Heartbeat,
    /// User application data
    Data(Vec<u8>),
    /// Indicates transition to new transport
    TransportSwitchNotifier { new_transport: TransportCapability },
}

/// The label of a message's kind, used in logs.
pub open spec fn label_text(m: ProtocolMessage) -> Seq<char> {
    match m {
        ProtocolMessage::Hello { .. } => "Hello"@,
        ProtocolMessage::HelloAck { .. } => "HelloAck"@,
        ProtocolMessage::ProposeUpgrade { .. } => "ProposeUpgrade"@,
        ProtocolMessage::AcceptUpgrade { .. } => "AcceptUpgrade"@,
        ProtocolMessage::RejectUpgrade { .. } => "RejectUpgrade"@,
        ProtocolMessage::Heartbeat => "Heartbeat"@,
        ProtocolMessage::Data(_) => "Data"@,
        ProtocolMessage::TransportSwitchNotifier { .. } => "TransportSwitch"@,
    }
}

impl ProtocolMessage {
    /// Get a human-readable label for logging.
    pub fn label(&self) -> (l: &'static str)
        ensures
            l@ == label_text(*self),
    {
        match self {
            ProtocolMessage::Hello { .. } => "Hello",
            ProtocolMessage::HelloAck { .. } => "HelloAck",
            ProtocolMessage::ProposeUpgrade { .. } => "ProposeUpgrade",
            ProtocolMessage::AcceptUpgrade { .. } => "AcceptUpgrade",
            ProtocolMessage::RejectUpgrade { .. } => "RejectUpgrade",
            ProtocolMessage::Heartbeat => "Heartbeat",
            ProtocolMessage::Data(_) => "Data",
            ProtocolMessage::TransportSwitchNotifier { .. } => "TransportSwitch",
        }
    }
}

/// Represents a discovered peer.
#[derive(Clone, Debug)]
pub struct DiscoveredPeer {
    pub peer_id_short: [u8; 8],
    pub capabilities: Vec<TransportCapability>,
    pub max_message_size: u16,
    pub is_connected: bool,
}

} // verus!
