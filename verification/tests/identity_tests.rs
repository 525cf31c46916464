use ble_network_upgrade::identity::NodeIdentity;

fn identity_with(peer_id: &str) -> NodeIdentity {
    NodeIdentity { peer_id: peer_id.to_string(), public_key_bytes: Vec::new() }
}

#[test]
fn short_id_of_short_peer_id_is_padded() {
    assert_eq!(identity_with("ab").short_id(), [97, 98, 0, 0, 0, 0, 0, 0]);
    assert_eq!(identity_with("").short_id(), [0; 8]);
    assert_eq!(identity_with("abcdefgh").short_id(), [97, 98, 99, 100, 101, 102, 103, 104]);
}

#[test]
fn short_id_folds_ninth_byte_into_first_lane() {
    // lane 0: (97 * 31 + 105) mod 256 = 40
    assert_eq!(identity_with("abcdefghi").short_id(), [40, 98, 99, 100, 101, 102, 103, 104]);
}

#[test]
fn short_id_wraps_around() {
    // lane 0 sees 255, then 255: (255 * 31 + 255) mod 256 = 0
    let s = String::from_utf8(vec![0x7f; 9]).unwrap();
    // (127 * 31 + 127) mod 256 = 4064 mod 256 = 224
    assert_eq!(identity_with(&s).short_id(), [224, 127, 127, 127, 127, 127, 127, 127]);
}

#[test]
fn generated_public_key_is_ed25519_protobuf() {
    let identity = NodeIdentity::generate();
    assert_eq!(identity.public_key_bytes.len(), 36);
    assert_eq!(&identity.public_key_bytes[..4], &[8, 1, 18, 32]);
    assert!(identity.peer_id.starts_with("12D3KooW"));
}

#[test]
fn peer_id_is_derived_from_public_key() {
    let identity = NodeIdentity::generate();
    let again = NodeIdentity::from_public_key_protobuf(identity.public_key_bytes.clone()).unwrap();
    assert_eq!(again.peer_id, identity.peer_id);
    assert_eq!(again.public_key_bytes, identity.public_key_bytes);
    assert_ne!(identity.peer_id.as_bytes(), identity.public_key_bytes.as_slice());
}

#[test]
fn two_identities_differ() {
    let a = NodeIdentity::generate();
    let b = NodeIdentity::generate();
    assert_ne!(a.peer_id, b.peer_id);
}

#[test]
fn garbage_is_not_a_public_key() {
    assert!(NodeIdentity::from_public_key_protobuf(vec![1, 2, 3]).is_none());
    assert!(NodeIdentity::from_public_key_protobuf(Vec::new()).is_none());
}
