//! Transport-upgrade logic for a libp2p node that is discovered over Bluetooth Low
//! Energy and then moves to Multipeer Connectivity: node identities and their short
//! advertisement ids, the negotiation messages, the transport state, and the decisions
//! taken on discovery, connection and data delivery.
pub mod identity;
pub mod protocol;
pub mod transport;
pub mod multipeer;
pub mod ble;
pub mod node;
pub mod btle;
