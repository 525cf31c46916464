//! The role a node takes in Multipeer Connectivity, the state that the session delegate
//! keeps, and the rules that the Multipeer backend applies to it.
use vstd::prelude::*;
use vstd::utf8::is_ascii_chars;

verus! {

/// Which side of a Multipeer session a node plays.
#[derive(Clone, Copy, Debug, PartialEq, Eq, Structural)]
pub enum MultiPeerRole {
    Initiator,
    Responder,
    Both,
}

/// The text of `s` in lower case, as `str::to_lowercase` gives it.
pub uninterp spec fn lowercase_text(s: Seq<char>) -> Seq<char>;

/// ASCII upper-case letters mapped to lower case, every other character kept.
pub open spec fn ascii_lowercase(s: Seq<char>) -> Seq<char> {
    s.map_values(|c: char| if 'A' <= c && c <= 'Z' { ((c as u32) + 32) as char } else { c })
}

/// Calls `str::to_lowercase`. Claimed: the result is `lowercase_text(s)`, a function of
/// the text alone, and on ASCII text it maps `A`..`Z` to `a`..`z` and keeps every other
/// character, as std documents for ASCII. What it does on other characters (the Unicode
/// lower-case mapping) is left unsaid.
#[verifier::external_body]
fn to_lowercase(s: &str) -> (lower: String)
    ensures
        lower@ == lowercase_text(s@),
        is_ascii_chars(s@) ==> lower@ == ascii_lowercase(s@),
{
    s.to_lowercase()
}

/// The role that a lower-case role name selects: `initiator`, `responder`, and `Both`
/// for any other name.
pub open spec fn role_named(lower: Seq<char>) -> MultiPeerRole {
    if lower == "initiator"@ {
        MultiPeerRole::Initiator
    } else if lower == "responder"@ {
        MultiPeerRole::Responder
    } else {
        MultiPeerRole::Both
    }
}

/// The role chosen by the `MP_ROLE` setting: `Both` when it is unset, else the role
/// that its lower-case form names.
pub open spec fn role_for_setting(mp_role: Option<Seq<char>>) -> MultiPeerRole {
    match mp_role {
        None => MultiPeerRole::Both,
        Some(v) => role_named(lowercase_text(v)),
    }
}

impl MultiPeerRole {
    /// The role for the value of the `MP_ROLE` environment variable, which the caller
    /// reads (`None` when it is unset or not Unicode). Case does not matter.
    pub fn from_env(mp_role: Option<&str>) -> (r: Self)
        ensures
            r == role_for_setting(
                match mp_role {
                    Some(v) => Some(v@),
                    None => None::<Seq<char>>,
                },
            ),
            (mp_role matches Some(v) && is_ascii_chars(v@)) ==> r == role_named(ascii_lowercase(mp_role.unwrap()@)),
    {
        match mp_role {
            None => MultiPeerRole::Both,
            Some(v) => {
                let lower = to_lowercase(v);
                Self::from_lowercase_name(lower.as_str())
            },
        }
    }

    /// The role that an already lower-cased role name selects.
    pub fn from_lowercase_name(lower: &str) -> (r: Self)
        ensures
            r == role_named(lower@),
    {
        let name = lower.to_owned();
        let initiator = "initiator".to_owned();
        let responder = "responder".to_owned();
        if name == initiator {
            MultiPeerRole::Initiator
        } else if name == responder {
            MultiPeerRole::Responder
        } else {
            MultiPeerRole::Both
        }
    }

    /// Whether this node browses for peers and sends invitations.
    pub fn is_initiator(self) -> (b: bool)
        ensures
            b == (self is Initiator || self is Both),
    {
        match self {
            MultiPeerRole::Initiator | MultiPeerRole::Both => true,
            MultiPeerRole::Responder => false,
        }
    }

    /// Whether this node advertises itself and accepts invitations.
    pub fn is_responder(self) -> (b: bool)
        ensures
            b == (self is Responder || self is Both),
    {
        match self {
            MultiPeerRole::Responder | MultiPeerRole::Both => true,
            MultiPeerRole::Initiator => false,
        }
    }
}

/// Every role takes part: it browses, or advertises, or both; only `Both` does both.
pub proof fn lemma_every_role_takes_part(r: MultiPeerRole)
    ensures
        (r is Initiator || r is Both) || (r is Responder || r is Both),
        ((r is Initiator || r is Both) && (r is Responder || r is Both)) <==> r is Both,
{
}

/// An unset `MP_ROLE` selects `Both`, as does any name other than the two roles.
pub proof fn lemma_default_role(v: Seq<char>)
    ensures
        role_for_setting(None) == MultiPeerRole::Both,
        lowercase_text(v) != "initiator"@ && lowercase_text(v) != "responder"@
            ==> role_for_setting(Some(v)) == MultiPeerRole::Both,
{
}

/// The state of the session delegate, as a value.
pub struct DelegateState {
    pub role_is_initiator: bool,
    pub session_attached: bool,
    pub received: Seq<Seq<u8>>,
    pub connected: bool,
}

/// What the session delegate keeps between callbacks: whether its node initiates,
/// whether a session is attached, the data received and not yet taken, and whether a
/// peer is connected.
pub struct MpDelegate {
    role_is_initiator: bool,
    session_attached: bool,
    received: Vec<Vec<u8>>,
    connected: bool,
}

impl View for MpDelegate {
    type V = DelegateState;

    closed spec fn view(&self) -> DelegateState {
        DelegateState {
            role_is_initiator: self.role_is_initiator,
            session_attached: self.session_attached,
            received: self.received@.map_values(|d: Vec<u8>| d@),
            connected: self.connected,
        }
    }
}

/// The state of a delegate that was just created: not initiating, no session, nothing
/// received, not connected.
pub open spec fn fresh_delegate() -> DelegateState {
    DelegateState {
        role_is_initiator: false,
        session_attached: false,
        received: Seq::empty(),
        connected: false,
    }
}

/// What happens to a delegate: it is configured for a role (and given its session), a
/// peer's state changes (to connected or not), data arrives, or the data received so far
/// is taken.
pub enum DelegateCall {
    Configure(MultiPeerRole),
    StateChanged(bool),
    DataReceived(Seq<u8>),
    Take,
}

/// The state of a delegate after one call, as the calls' contracts state it.
pub open spec fn apply_delegate(s: DelegateState, c: DelegateCall) -> DelegateState {
    match c {
        DelegateCall::Configure(role) => DelegateState {
            role_is_initiator: role is Initiator || role is Both,
            session_attached: true,
            ..s
        },
        DelegateCall::StateChanged(now_connected) => DelegateState { connected: now_connected, ..s },
        DelegateCall::DataReceived(d) => DelegateState { received: s.received.push(d), ..s },
        DelegateCall::Take => DelegateState { received: Seq::empty(), ..s },
    }
}

/// The state of a delegate after a sequence of calls.
pub open spec fn run_delegate(s: DelegateState, calls: Seq<DelegateCall>) -> DelegateState
    decreases calls.len(),
{
    if calls.len() == 0 {
        s
    } else {
        apply_delegate(run_delegate(s, calls.drop_last()), calls.last())
    }
}

/// What the latest state change among `calls` said (not connected when there was none).
pub open spec fn last_state_change(calls: Seq<DelegateCall>) -> bool
    decreases calls.len(),
{
    if calls.len() == 0 {
        false
    } else {
        match calls.last() {
            DelegateCall::StateChanged(b) => b,
            _ => last_state_change(calls.drop_last()),
        }
    }
}

/// The role of the latest configuration among `calls`, if any.
pub open spec fn last_configured_role(calls: Seq<DelegateCall>) -> Option<MultiPeerRole>
    decreases calls.len(),
{
    if calls.len() == 0 {
        None
    } else {
        match calls.last() {
            DelegateCall::Configure(r) => Some(r),
            _ => last_configured_role(calls.drop_last()),
        }
    }
}

/// The data that arrived after the latest take among `calls`, in order.
pub open spec fn received_since_take(calls: Seq<DelegateCall>) -> Seq<Seq<u8>>
    decreases calls.len(),
{
    if calls.len() == 0 {
        Seq::empty()
    } else {
        match calls.last() {
            DelegateCall::DataReceived(d) => received_since_take(calls.drop_last()).push(d),
            DelegateCall::Take => Seq::empty(),
            _ => received_since_take(calls.drop_last()),
        }
    }
}

/// Over any sequence of callbacks on a new delegate: it reports a connection exactly when
/// the latest peer state change said `Connected` (so not before any change, and not after
/// a peer reports another state, even if another peer is still connected); it invites
/// found peers exactly when its latest configuration was for a role that initiates; and a
/// take hands out exactly the data that arrived since the previous take, in order.
pub proof fn lemma_delegate_after_calls(calls: Seq<DelegateCall>)
    ensures
        run_delegate(fresh_delegate(), calls).connected == last_state_change(calls),
        run_delegate(fresh_delegate(), calls).session_attached == last_configured_role(calls) is Some,
        run_delegate(fresh_delegate(), calls).role_is_initiator == match last_configured_role(calls) {
            Some(r) => r is Initiator || r is Both,
            None => false,
        },
        run_delegate(fresh_delegate(), calls).received == received_since_take(calls),
    decreases calls.len(),
{
    if calls.len() > 0 {
        lemma_delegate_after_calls(calls.drop_last());
    }
}

/// How the delegate answers an invitation: it always accepts, and hands over its session
/// where one is attached.
pub struct InvitationReply {
    pub accept: bool,
    pub with_session: bool,
}

impl MpDelegate {
    /// A fresh delegate: not initiating, no session, nothing received, not connected.
    pub fn new() -> (d: Self)
        ensures
            d@ == fresh_delegate(),
    {
        let d = MpDelegate {
            role_is_initiator: false,
            session_attached: false,
            received: Vec::new(),
            connected: false,
        };
        assert(d@.received =~= Seq::<Seq<u8>>::empty());
        d
    }

    /// Attaches the session and records whether the node's role initiates.
    pub fn configure(&mut self, role: MultiPeerRole)
        ensures
            final(self)@ == apply_delegate(old(self)@, DelegateCall::Configure(role)),
    {
        self.role_is_initiator = role.is_initiator();
        self.session_attached = true;
    }

    /// Whether a peer that the browser found is invited: only by an initiator that has a
    /// session to invite it to.
    pub fn should_invite_found_peer(&self) -> (b: bool)
        ensures
            b == (self@.role_is_initiator && self@.session_attached),
    {
        self.role_is_initiator && self.session_attached
    }

    /// The reply to an invitation received by the advertiser.
    pub fn invitation_reply(&self) -> (r: InvitationReply)
        ensures
            r.accept,
            r.with_session == self@.session_attached,
    {
        InvitationReply { accept: true, with_session: self.session_attached }
    }

    /// Records a change of a peer's state: connected exactly when the new state is
    /// `Connected`.
    pub fn peer_state_changed(&mut self, now_connected: bool)
        ensures
            final(self)@ == apply_delegate(old(self)@, DelegateCall::StateChanged(now_connected)),
    {
        self.connected = now_connected;
    }

    /// Records data received from a peer, after what was received before.
    pub fn data_received(&mut self, data: Vec<u8>)
        ensures
            final(self)@ == apply_delegate(old(self)@, DelegateCall::DataReceived(data@)),
    {
        self.received.push(data);
        proof {
            assert(self@.received =~= old(self)@.received.push(data@));
        }
    }

    /// Whether a peer is connected, as the last state change said.
    pub fn is_connected(&self) -> (b: bool)
        ensures
            b == self@.connected,
    {
        self.connected
    }

    /// Takes all data received so far, in the order it came, leaving none behind.
    pub fn take_received(&mut self) -> (out: Vec<Vec<u8>>)
        ensures
            out@.map_values(|d: Vec<u8>| d@) == old(self)@.received,
            final(self)@ == apply_delegate(old(self)@, DelegateCall::Take),
    {
        let mut out: Vec<Vec<u8>> = Vec::new();
        out.append(&mut self.received);
        proof {
            assert(self@.received =~= Seq::<Seq<u8>>::empty());
            assert(out@.map_values(|d: Vec<u8>| d@) =~= old(self)@.received);
        }
        out
    }
}

/// Whether the wait for a Multipeer connection is over: some peer is connected, by the
/// session's own list or by the delegate's last state change.
pub fn connection_ready(connected_peer_count: usize, delegate_connected: bool) -> (b: bool)
    ensures
        b == (connected_peer_count > 0 || delegate_connected),
{
    connected_peer_count > 0 || delegate_connected
}

/// Errors of the Multipeer backend.
#[derive(Clone, Debug)]
pub enum MultiPeerError {
    /// The backend needs macOS.
    Unsupported,
    /// No peer connected before the timeout.
    Timeout,
    /// Data was to be sent while no peer is connected.
    NoConnectedPeers,
    /// The session refused the data; the text describes the session's error.
    SendFailed(String),
}

/// The message of an error, as the backend reports it.
pub open spec fn error_text(e: MultiPeerError) -> Seq<char> {
    match e {
        MultiPeerError::Unsupported => "Multipeer backend is only available on macOS"@,
        MultiPeerError::Timeout => "Timed out waiting for Multipeer connection"@,
        MultiPeerError::NoConnectedPeers => "No connected Multipeer peers"@,
        MultiPeerError::SendFailed(detail) => "sendData failed: "@ + detail@,
    }
}

impl MultiPeerError {
    /// The message of the error.
    pub fn message(&self) -> (m: String)
        ensures
            m@ == error_text(*self),
    {
        match self {
            MultiPeerError::Unsupported => "Multipeer backend is only available on macOS".to_owned(),
            MultiPeerError::Timeout => "Timed out waiting for Multipeer connection".to_owned(),
            MultiPeerError::NoConnectedPeers => "No connected Multipeer peers".to_owned(),
            MultiPeerError::SendFailed(detail) => {
                let mut m = "sendData failed: ".to_owned();
                m.append(detail.as_str());
                m
            },
        }
    }
}

/// What a node waiting for a Multipeer connection learns: at a tick, whether the
/// timeout is still ahead; after pumping the run loop, how many peers the session lists
/// and whether the delegate saw a peer connect.
pub enum WaitEvent {
    Tick { within_timeout: bool },
    Observed { connected_peer_count: usize, delegate_connected: bool },
}

/// What the waiting node does next: pump the run loop and look at the session, sleep a
/// little and tick again, or stop with the result of the wait.
pub enum WaitAction {
    PumpAndObserve,
    SleepAndTick,
    Finish(Result<(), MultiPeerError>),
}

/// One step of the wait for a Multipeer connection: a tick before the timeout leads to a
/// look at the session, a tick past it ends the wait with `Timeout`; a look that finds a
/// connected peer ends the wait successfully, else the node sleeps and ticks again.
pub fn wait_step(event: WaitEvent) -> (a: WaitAction)
    ensures
        match event {
            WaitEvent::Tick { within_timeout } => if within_timeout {
                a is PumpAndObserve
            } else {
                a matches WaitAction::Finish(Err(MultiPeerError::Timeout))
            },
            WaitEvent::Observed { connected_peer_count, delegate_connected } => if connected_peer_count > 0
                || delegate_connected {
                a matches WaitAction::Finish(Ok(()))
            } else {
                a is SleepAndTick
            },
        },
{
    match event {
        WaitEvent::Tick { within_timeout } => {
            if within_timeout {
                WaitAction::PumpAndObserve
            } else {
                WaitAction::Finish(Err(MultiPeerError::Timeout))
            }
        },
        WaitEvent::Observed { connected_peer_count, delegate_connected } => {
            if connection_ready(connected_peer_count, delegate_connected) {
                WaitAction::Finish(Ok(()))
            } else {
                WaitAction::SleepAndTick
            }
        },
    }
}

/// Whether data is handed to the session: only where some peer is connected; else the
/// send is refused and nothing is sent.
pub fn send_decision(connected_peer_count: usize) -> (r: Result<(), MultiPeerError>)
    ensures
        r is Ok <==> connected_peer_count > 0,
        r is Err ==> r matches Err(MultiPeerError::NoConnectedPeers),
{
    if connected_peer_count == 0 {
        Err(MultiPeerError::NoConnectedPeers)
    } else {
        Ok(())
    }
}

/// The result of handing `data_len` bytes to the session: the session's error where it
/// refused them, else the number of bytes sent.
pub fn delivery_outcome(data_len: usize, session_error: Option<String>) -> (r: Result<usize, MultiPeerError>)
    ensures
        match session_error {
            Some(e) => (r matches Err(MultiPeerError::SendFailed(d)) && d@ == e@),
            None => r == Ok::<usize, MultiPeerError>(data_len),
        },
{
    match session_error {
        Some(e) => Err(MultiPeerError::SendFailed(e)),
        None => Ok(data_len),
    }
}

} // verus!
