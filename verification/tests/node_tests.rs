use ble_network_upgrade::btle::fill_read_buffer;
use ble_network_upgrade::node::{
    generate_advertisement_data, is_libp2p_node, lp_name, parse_role, NodeRole, RoleError,
};

fn args(items: &[&str]) -> Vec<String> {
    items.iter().map(|s| s.to_string()).collect()
}

#[test]
fn role_from_command_line() {
    assert_eq!(parse_role(&args(&["prog", "peripheral"])).unwrap(), NodeRole::Peripheral);
    assert_eq!(parse_role(&args(&["prog", "central", "extra"])).unwrap(), NodeRole::Central);
    assert!(matches!(parse_role(&args(&["prog"])), Err(RoleError::Missing)));
    match parse_role(&args(&["prog", "Central"])) {
        Err(e) => assert_eq!(e.message(), "Invalid role specified Central"),
        Ok(_) => panic!("expected an error"),
    }
    assert_eq!(RoleError::Missing.message(), "Need a role - peripheral or central");
}

#[test]
fn node_is_found_by_its_name() {
    assert_eq!(lp_name(), "libp2p-node");
    assert!(is_libp2p_node(Some("libp2p-node")));
    assert!(!is_libp2p_node(Some("libp2p-nodes")));
    assert!(!is_libp2p_node(None));
}

#[test]
fn advertisement_data_is_the_peer_id() {
    assert_eq!(generate_advertisement_data("12D3KooW"), "12D3KooW");
}

#[test]
fn read_buffer_takes_what_fits() {
    let mut buf = [9u8; 4];
    assert_eq!(fill_read_buffer(&[1, 2], &mut buf), 2);
    assert_eq!(buf, [1, 2, 9, 9]);
    let mut small = [0u8; 2];
    assert_eq!(fill_read_buffer(&[5, 6, 7], &mut small), 2);
    assert_eq!(small, [5, 6]);
    let mut empty: [u8; 0] = [];
    assert_eq!(fill_read_buffer(&[1], &mut empty), 0);
}
