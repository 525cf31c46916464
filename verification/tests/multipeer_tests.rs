use ble_network_upgrade::multipeer::{
    connection_ready, delivery_outcome, send_decision, wait_step, MpDelegate, MultiPeerError,
    MultiPeerRole, WaitAction, WaitEvent,
};

#[test]
fn role_from_env_setting() {
    assert_eq!(MultiPeerRole::from_env(None), MultiPeerRole::Both);
    assert_eq!(MultiPeerRole::from_env(Some("initiator")), MultiPeerRole::Initiator);
    assert_eq!(MultiPeerRole::from_env(Some("Responder")), MultiPeerRole::Responder);
    assert_eq!(MultiPeerRole::from_env(Some("INITIATOR")), MultiPeerRole::Initiator);
    assert_eq!(MultiPeerRole::from_env(Some("both")), MultiPeerRole::Both);
    assert_eq!(MultiPeerRole::from_env(Some("anything")), MultiPeerRole::Both);
    assert_eq!(MultiPeerRole::from_env(Some("")), MultiPeerRole::Both);
}

#[test]
fn role_from_lowercase_name_is_case_sensitive() {
    assert_eq!(MultiPeerRole::from_lowercase_name("responder"), MultiPeerRole::Responder);
    assert_eq!(MultiPeerRole::from_lowercase_name("Responder"), MultiPeerRole::Both);
}

#[test]
fn roles_browse_and_advertise() {
    assert!(MultiPeerRole::Initiator.is_initiator());
    assert!(!MultiPeerRole::Initiator.is_responder());
    assert!(!MultiPeerRole::Responder.is_initiator());
    assert!(MultiPeerRole::Responder.is_responder());
    assert!(MultiPeerRole::Both.is_initiator());
    assert!(MultiPeerRole::Both.is_responder());
}

#[test]
fn delegate_invites_only_when_initiating_with_session() {
    let mut d = MpDelegate::new();
    assert!(!d.should_invite_found_peer());
    assert!(!d.invitation_reply().with_session);
    d.configure(MultiPeerRole::Responder);
    assert!(!d.should_invite_found_peer());
    assert!(d.invitation_reply().accept);
    assert!(d.invitation_reply().with_session);
    d.configure(MultiPeerRole::Both);
    assert!(d.should_invite_found_peer());
}

#[test]
fn delegate_tracks_connection_state() {
    let mut d = MpDelegate::new();
    assert!(!d.is_connected());
    d.peer_state_changed(true);
    assert!(d.is_connected());
    d.peer_state_changed(false);
    assert!(!d.is_connected());
}

#[test]
fn delegate_hands_out_received_data_once_in_order() {
    let mut d = MpDelegate::new();
    d.data_received(vec![1]);
    d.data_received(vec![2, 3]);
    assert_eq!(d.take_received(), vec![vec![1], vec![2, 3]]);
    assert!(d.take_received().is_empty());
    d.data_received(vec![4]);
    assert_eq!(d.take_received(), vec![vec![4]]);
}

#[test]
fn connection_is_ready_with_any_peer() {
    assert!(!connection_ready(0, false));
    assert!(connection_ready(1, false));
    assert!(connection_ready(0, true));
}

#[test]
fn send_needs_a_connected_peer() {
    assert!(matches!(send_decision(0), Err(MultiPeerError::NoConnectedPeers)));
    assert!(send_decision(2).is_ok());
}

#[test]
fn delivery_outcomes() {
    assert_eq!(delivery_outcome(5, None).unwrap(), 5);
    match delivery_outcome(5, Some("boom".to_string())) {
        Err(e) => assert_eq!(e.message(), "sendData failed: boom"),
        Ok(_) => panic!("expected an error"),
    }
}

#[test]
fn wait_steps() {
    assert!(matches!(wait_step(WaitEvent::Tick { within_timeout: true }), WaitAction::PumpAndObserve));
    assert!(matches!(
        wait_step(WaitEvent::Tick { within_timeout: false }),
        WaitAction::Finish(Err(MultiPeerError::Timeout))
    ));
    assert!(matches!(
        wait_step(WaitEvent::Observed { connected_peer_count: 0, delegate_connected: false }),
        WaitAction::SleepAndTick
    ));
    assert!(matches!(
        wait_step(WaitEvent::Observed { connected_peer_count: 1, delegate_connected: false }),
        WaitAction::Finish(Ok(()))
    ));
    assert!(matches!(
        wait_step(WaitEvent::Observed { connected_peer_count: 0, delegate_connected: true }),
        WaitAction::Finish(Ok(()))
    ));
}

#[test]
fn delegate_connection_follows_latest_state_change() {
    let mut d = MpDelegate::new();
    d.peer_state_changed(true);
    d.peer_state_changed(true);
    d.peer_state_changed(false);
    assert!(!d.is_connected());
    d.configure(MultiPeerRole::Initiator);
    d.data_received(vec![1]);
    assert!(!d.is_connected());
    assert!(d.should_invite_found_peer());
    d.configure(MultiPeerRole::Responder);
    assert!(!d.should_invite_found_peer());
}

#[test]
fn multipeer_error_messages() {
    assert_eq!(MultiPeerError::Unsupported.message(), "Multipeer backend is only available on macOS");
    assert_eq!(MultiPeerError::Timeout.message(), "Timed out waiting for Multipeer connection");
    assert_eq!(MultiPeerError::NoConnectedPeers.message(), "No connected Multipeer peers");
}
