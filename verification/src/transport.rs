//! The transport in use between two peers, its upgrade to Multipeer Connectivity and
//! its fallback to BLE.
use vstd::prelude::*;

verus! {

/// The transport that currently carries data.
#[derive(Clone, Copy, Debug, PartialEq, Eq, Structural)]
pub enum ActiveTransport {
    Ble,
    MultiPeerConnectivity,
}

/// Multipeer connection info.
#[derive(Clone, Debug)]
pub struct MultiPeerSession {
    pub peer_id: String,
    pub is_secure: bool,
}

/// The session as a value: the peer's id and whether the link is secured.
pub open spec fn session_view(s: MultiPeerSession) -> (Seq<char>, bool) {
    (s.peer_id@, s.is_secure)
}

/// The state of a transport manager.
pub struct TransportState {
    pub active: ActiveTransport,
    pub session: Option<(Seq<char>, bool)>,
    pub ble_fallback_enabled: bool,
}

/// A new manager: on BLE, without a Multipeer session, with BLE fallback enabled.
pub open spec fn initial_state() -> TransportState {
    TransportState { active: ActiveTransport::Ble, session: None, ble_fallback_enabled: true }
}

/// After an upgrade towards `peer_id`: Multipeer is active over a secured session with it.
pub open spec fn upgraded(s: TransportState, peer_id: Seq<char>) -> TransportState {
    TransportState {
        active: ActiveTransport::MultiPeerConnectivity,
        session: Some((peer_id, true)),
        ..s
    }
}

/// After a fallback: BLE is active again; the last Multipeer session is kept.
pub open spec fn fell_back(s: TransportState) -> TransportState {
    TransportState { active: ActiveTransport::Ble, ..s }
}

/// An error of a transport operation, with its message. The operations of the manager
/// below act on its own state and always succeed.
#[derive(Debug)]
pub struct TransportError {
    pub message: String,
}

/// Manages transport upgrade and dual-transport scenarios.
pub struct TransportManager {
    active_transport: ActiveTransport,
    current_session: Option<MultiPeerSession>,
    ble_fallback_enabled: bool,
}

impl View for TransportManager {
    type V = TransportState;

    closed spec fn view(&self) -> TransportState {
        TransportState {
            active: self.active_transport,
            session: match self.current_session {
                Some(s) => Some(session_view(s)),
                None => None,
            },
            ble_fallback_enabled: self.ble_fallback_enabled,
        }
    }
}

impl TransportManager {
    /// Create new transport manager.
    pub fn new() -> (m: Self)
        ensures
            m@ == initial_state(),
    {
        TransportManager {
            active_transport: ActiveTransport::Ble,
            current_session: None,
            ble_fallback_enabled: true,
        }
    }

    /// Get current active transport.
    pub fn get_active_transport(&self) -> (t: ActiveTransport)
        ensures
            t == self@.active,
    {
        self.active_transport
    }

    /// Upgrade to multipeer connectivity with the peer `peer_id`.
    pub fn upgrade_to_multipeer(&mut self, peer_id: &str) -> (r: Result<(), TransportError>)
        ensures
            r is Ok,
            final(self)@ == upgraded(old(self)@, peer_id@),
    {
        let session = MultiPeerSession { peer_id: peer_id.to_owned(), is_secure: true };
        self.current_session = Some(session);
        self.active_transport = ActiveTransport::MultiPeerConnectivity;
        Ok(())
    }

    /// Fallback to BLE.
    pub fn fallback_to_ble(&mut self)
        ensures
            final(self)@ == fell_back(old(self)@),
    {
        self.active_transport = ActiveTransport::Ble;
    }

    /// Send data on current transport; every byte is handed over, whichever it is.
    pub fn send_data(&self, data: &[u8]) -> (r: Result<usize, TransportError>)
        ensures
            r == Ok::<usize, TransportError>(data@.len() as usize),
    {
        match self.active_transport {
            ActiveTransport::Ble => Ok(data.len()),
            ActiveTransport::MultiPeerConnectivity => Ok(data.len()),
        }
    }

    /// Get current session info.
    pub fn get_session(&self) -> (s: Option<MultiPeerSession>)
        ensures
            self@.session == match s {
                Some(x) => Some(session_view(x)),
                None => None::<(Seq<char>, bool)>,
            },
    {
        match &self.current_session {
            Some(s) => Some(MultiPeerSession { peer_id: s.peer_id.clone(), is_secure: s.is_secure }),
            None => None,
        }
    }

    /// Check if BLE fallback is available.
    pub fn is_ble_fallback_enabled(&self) -> (b: bool)
        ensures
            b == self@.ble_fallback_enabled,
    {
        self.ble_fallback_enabled
    }
}

impl Default for TransportManager {
    fn default() -> (m: Self)
        ensures
            m@ == initial_state(),
    {
        Self::new()
    }
}

/// Falling back after an upgrade returns to BLE and keeps the secured session with the
/// peer, so that the upgrade can be resumed; the fallback setting is untouched.
pub proof fn lemma_fallback_keeps_session(s: TransportState, peer_id: Seq<char>)
    ensures
        fell_back(upgraded(s, peer_id)).active == ActiveTransport::Ble,
        fell_back(upgraded(s, peer_id)).session == Some((peer_id, true)),
        fell_back(upgraded(s, peer_id)).ble_fallback_enabled == s.ble_fallback_enabled,
{
}

/// Upgrading again after a fallback restores exactly the upgraded state.
pub proof fn lemma_upgrade_after_fallback(s: TransportState, peer_id: Seq<char>)
    ensures
        upgraded(fell_back(upgraded(s, peer_id)), peer_id) == upgraded(s, peer_id),
{
}

/// The latest upgrade decides the session: upgrading towards `b` after `a` is the same
/// as upgrading towards `b` alone.
pub proof fn lemma_latest_upgrade_wins(s: TransportState, a: Seq<char>, b: Seq<char>)
    ensures
        upgraded(upgraded(s, a), b) == upgraded(s, b),
{
}

/// A call made on a manager: an upgrade towards a peer, a fallback, or a send (which
/// leaves the state as it is, as do the getters).
pub enum TransportCall {
    Upgrade(Seq<char>),
    Fallback,
    Send,
}

/// The state after one call, as the calls' contracts state it.
pub open spec fn apply_call(s: TransportState, c: TransportCall) -> TransportState {
    match c {
        TransportCall::Upgrade(peer_id) => upgraded(s, peer_id),
        TransportCall::Fallback => fell_back(s),
        TransportCall::Send => s,
    }
}

/// The state after a sequence of calls.
pub open spec fn run_calls(s: TransportState, calls: Seq<TransportCall>) -> TransportState
    decreases calls.len(),
{
    if calls.len() == 0 {
        s
    } else {
        apply_call(run_calls(s, calls.drop_last()), calls.last())
    }
}

/// Whether the latest upgrade or fallback among `calls` is an upgrade (false when there
/// is none).
pub open spec fn last_switch_is_upgrade(calls: Seq<TransportCall>) -> bool
    decreases calls.len(),
{
    if calls.len() == 0 {
        false
    } else {
        match calls.last() {
            TransportCall::Upgrade(_) => true,
            TransportCall::Fallback => false,
            TransportCall::Send => last_switch_is_upgrade(calls.drop_last()),
        }
    }
}

/// The peer of the latest upgrade among `calls`, if any.
pub open spec fn last_upgrade_peer(calls: Seq<TransportCall>) -> Option<Seq<char>>
    decreases calls.len(),
{
    if calls.len() == 0 {
        None
    } else {
        match calls.last() {
            TransportCall::Upgrade(peer_id) => Some(peer_id),
            _ => last_upgrade_peer(calls.drop_last()),
        }
    }
}

/// Over any sequence of calls on a new manager: Multipeer is active exactly when the
/// latest upgrade or fallback was an upgrade, else BLE (also when there was none); the
/// session is the secured one with the peer of the latest upgrade, which a fallback never
/// clears, or none before the first upgrade; BLE fallback stays enabled.
pub proof fn lemma_state_after_calls(calls: Seq<TransportCall>)
    ensures
        run_calls(initial_state(), calls) == (TransportState {
            active: if last_switch_is_upgrade(calls) {
                ActiveTransport::MultiPeerConnectivity
            } else {
                ActiveTransport::Ble
            },
            session: match last_upgrade_peer(calls) {
                Some(p) => Some((p, true)),
                None => None,
            },
            ble_fallback_enabled: true,
        }),
    decreases calls.len(),
{
    if calls.len() > 0 {
        lemma_state_after_calls(calls.drop_last());
    }
}

} // verus!
