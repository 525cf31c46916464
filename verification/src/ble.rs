//! BLE discovery: the events that the scanner reports, the name under which a node
//! advertises itself, and the rules by which a scanned device becomes a discovered peer.
use vstd::prelude::*;
use vstd::utf8::{encode_utf8, is_ascii_chars, is_ascii_chars_encode_utf8};

verus! {

/// BLE event types.
#[derive(Debug, Clone)]
pub enum BleEvent {
    PeerDiscovered { address: String, rssi: i16, adv_data: Vec<u8> },
    PeerConnected { address: String },
    PeerDisconnected { address: String },
}

/// The prefix of the local name under which the nodes of this network advertise.
pub open spec fn name_prefix() -> Seq<char> {
    "libp2p-"@
}

/// The address that a scanner reports for a device whose address it does not know.
pub open spec fn unknown_address() -> Seq<char> {
    "00:00:00:00:00:00"@
}

/// The RSSI reported for a device whose signal strength is not known.
pub open spec fn unknown_rssi() -> i16 {
    -127i16
}

/// A lower-case hexadecimal digit.
pub open spec fn hex_digit(n: int) -> char {
    if n < 10 {
        (('0' as int) + n) as char
    } else {
        (('a' as int) + n - 10) as char
    }
}

/// A byte as two lower-case hexadecimal digits.
pub open spec fn hex_byte(b: u8) -> Seq<char> {
    seq![hex_digit(b as int / 16), hex_digit(b as int % 16)]
}

/// The local name that a node advertises: the prefix followed by the first four bytes of
/// its short id in hexadecimal.
pub open spec fn advertised_name(short_id: Seq<u8>) -> Seq<char> {
    name_prefix() + hex_byte(short_id[0]) + hex_byte(short_id[1]) + hex_byte(short_id[2])
        + hex_byte(short_id[3])
}

/// The hexadecimal digit of `n`, below 16.
fn hex_digit_str(n: u8) -> (d: &'static str)
    requires
        n < 16,
    ensures
        d@ == seq![hex_digit(n as int)],
{
    let digits = "0123456789abcdef";
    proof {
        reveal_strlit("0123456789abcdef");
    }
    let d = digits.substring_char(n as usize, n as usize + 1);
    proof {
        assert(d@.len() == 1);
        assert(d@[0] == digits@[n as int]);
        assert(digits@[n as int] == hex_digit(n as int)) by {
            reveal_strlit("0123456789abcdef");
        }
        assert(d@ =~= seq![hex_digit(n as int)]);
    }
    d
}

/// The local name under which a node with this short id advertises itself.
pub fn advertised_local_name(short_id: &[u8; 8]) -> (name: String)
    ensures
        name@ == advertised_name(short_id@),
{
    let mut name = "libp2p-".to_owned();
    let mut i: usize = 0;
    while i < 4
        invariant
            i <= 4,
            short_id@.len() == 8,
            name@ == name_prefix() + (if i == 0 {
                Seq::<char>::empty()
            } else if i == 1 {
                hex_byte(short_id@[0])
            } else if i == 2 {
                hex_byte(short_id@[0]) + hex_byte(short_id@[1])
            } else if i == 3 {
                hex_byte(short_id@[0]) + hex_byte(short_id@[1]) + hex_byte(short_id@[2])
            } else {
                hex_byte(short_id@[0]) + hex_byte(short_id@[1]) + hex_byte(short_id@[2])
                    + hex_byte(short_id@[3])
            }),
        decreases 4 - i,
    {
        let b: u8 = short_id[i];
        let high = hex_digit_str(b / 16);
        let low = hex_digit_str(b % 16);
        let ghost before = name@;
        name.append(high);
        name.append(low);
        proof {
            assert(name@ =~= before + hex_byte(b));
        }
        i = i + 1;
    }
    proof {
        assert(name@ =~= advertised_name(short_id@));
    }
    name
}

/// Whether `s` begins with `prefix`.
pub fn starts_with(s: &str, prefix: &str) -> (b: bool)
    ensures
        b == prefix@.is_prefix_of(s@),
{
    let n = prefix.unicode_len();
    let m = s.unicode_len();
    if n > m {
        return false;
    }
    let mut i: usize = 0;
    while i < n
        invariant
            n == prefix@.len(),
            m == s@.len(),
            n <= m,
            i <= n,
            forall|j: int| 0 <= j < i ==> s@[j] == prefix@[j],
        decreases n - i,
    {
        if s.get_char(i) != prefix.get_char(i) {
            return false;
        }
        i = i + 1;
    }
    assert(prefix@ =~= s@.subrange(0, n as int));
    true
}

/// Whether a scanned device is reported as a newly discovered peer: its address is
/// known, its local name carries the network's prefix, and it was not discovered before.
pub open spec fn is_new_peer(address: Seq<char>, local_name: Option<Seq<char>>, already_known: bool) -> bool {
    &&& address != unknown_address()
    &&& name_prefix().is_prefix_of(
        match local_name {
            Some(n) => n,
            None => Seq::empty(),
        },
    )
    &&& !already_known
}

/// The event for a device that a scan reports with `address`, its local name, its RSSI
/// and its first manufacturer data, where `already_known` says whether it was discovered
/// before: `None` unless it is a new peer; else `PeerDiscovered` with the address, the
/// RSSI (-127 where unknown) and the data (empty where there is none).
pub fn discovery_event(
    address: String,
    local_name: Option<String>,
    rssi: Option<i16>,
    manufacturer_data: Option<Vec<u8>>,
    already_known: bool,
) -> (e: Option<BleEvent>)
    ensures
        e is Some <==> is_new_peer(
            address@,
            match local_name {
                Some(n) => Some(n@),
                None => None::<Seq<char>>,
            },
            already_known,
        ),
        e matches Some(ev) ==> (ev matches BleEvent::PeerDiscovered { address: a, rssi: r, adv_data: d }
            && a@ == address@
            && r == match rssi {
                Some(x) => x,
                None => unknown_rssi(),
            }
            && d@ == match manufacturer_data {
                Some(v) => v@,
                None => Seq::<u8>::empty(),
            }),
{
    let zero = "00:00:00:00:00:00".to_owned();
    if address == zero {
        return None;
    }
    let named = match &local_name {
        Some(n) => starts_with(n.as_str(), "libp2p-"),
        None => starts_with("", "libp2p-"),
    };
    proof {
        reveal_strlit("");
    }
    if !named {
        return None;
    }
    if already_known {
        return None;
    }
    let rssi = match rssi {
        Some(x) => x,
        None => -127,
    };
    let adv_data = match manufacturer_data {
        Some(v) => v,
        None => Vec::new(),
    };
    Some(BleEvent::PeerDiscovered { address, rssi, adv_data })
}

/// Errors of the BLE manager.
#[derive(Debug, Clone)]
pub enum BleError {
    /// No peripheral with this address was discovered.
    PeripheralNotFound(String),
    /// Advertising as a peripheral needs macOS.
    AdvertisingUnsupported,
    /// No Bluetooth adapter is present.
    NoAdapter,
}

/// The message of an error, as the manager reports it.
pub open spec fn ble_error_text(e: BleError) -> Seq<char> {
    match e {
        BleError::PeripheralNotFound(a) => "Peripheral "@ + a@ + " not found"@,
        BleError::AdvertisingUnsupported => "BLE advertising backend is only available on macOS"@,
        BleError::NoAdapter => "No BLE adapter found"@,
    }
}

impl BleError {
    /// The message of the error.
    pub fn message(&self) -> (m: String)
        ensures
            m@ == ble_error_text(*self),
    {
        match self {
            BleError::PeripheralNotFound(a) => {
                let mut m = "Peripheral ".to_owned();
                m.append(a.as_str());
                m.append(" not found");
                m
            },
            BleError::AdvertisingUnsupported => "BLE advertising backend is only available on macOS".to_owned(),
            BleError::NoAdapter => "No BLE adapter found".to_owned(),
        }
    }
}

/// Connecting to `address`: refused unless the peripheral was discovered, else the
/// `PeerConnected` event for it.
pub fn connect_event(address: &str, known: bool) -> (r: Result<BleEvent, BleError>)
    ensures
        known ==> (r matches Ok(BleEvent::PeerConnected { address: a }) && a@ == address@),
        !known ==> (r matches Err(BleError::PeripheralNotFound(a)) && a@ == address@),
{
    if !known {
        return Err(BleError::PeripheralNotFound(address.to_owned()));
    }
    Ok(BleEvent::PeerConnected { address: address.to_owned() })
}

/// Disconnecting from `address`: the `PeerDisconnected` event where the peripheral was
/// discovered, else nothing happens.
pub fn disconnect_event(address: &str, known: bool) -> (r: Option<BleEvent>)
    ensures
        known ==> (r matches Some(BleEvent::PeerDisconnected { address: a }) && a@ == address@),
        !known ==> r is None,
{
    if known {
        Some(BleEvent::PeerDisconnected { address: address.to_owned() })
    } else {
        None
    }
}

/// A node's advertisement is recognised by the scanners of the network: a device seen
/// under the advertised name of any short id, at a known address and not yet known, is
/// reported as a new peer.
pub proof fn lemma_advertised_name_is_discovered(short_id: Seq<u8>, address: Seq<char>)
    requires
        short_id.len() == 8,
        address != unknown_address(),
    ensures
        is_new_peer(address, Some(advertised_name(short_id)), false),
{
    assert(name_prefix() =~= advertised_name(short_id).subrange(0, name_prefix().len() as int));
}

/// The advertised name fits a BLE advertisement, whose payload is at most 31 bytes: it is
/// 15 ASCII characters, so its UTF-8 encoding is 15 bytes long.
pub proof fn lemma_advertised_name_fits(short_id: Seq<u8>)
    requires
        short_id.len() == 8,
    ensures
        advertised_name(short_id).len() == 15,
        is_ascii_chars(advertised_name(short_id)),
        encode_utf8(advertised_name(short_id)).len() == 15,
{
    reveal_strlit("libp2p-");
    let name = advertised_name(short_id);
    assert forall|i: int| 0 <= i < name.len() implies '\0' <= #[trigger] name[i] <= '\u{7f}' by {
        if i >= 7 {
            let k = (i - 7) / 2;
            let b = short_id[k];
            assert(0 <= b as int / 16 < 16 && 0 <= b as int % 16 < 16);
        }
    }
    is_ascii_chars_encode_utf8(name);
}

/// A peer is discovered at most once: a device already known is never reported again.
pub proof fn lemma_known_peer_not_rediscovered(address: Seq<char>, local_name: Option<Seq<char>>)
    ensures
        !is_new_peer(address, local_name, true),
{
}

/// A device as one scan reports it: its address, local name, RSSI and first
/// manufacturer data, where known.
pub struct ScannedDevice {
    pub address: String,
    pub local_name: Option<String>,
    pub rssi: Option<i16>,
    pub manufacturer_data: Option<Vec<u8>>,
}

/// A scanned device as a value.
pub struct DeviceView {
    pub address: Seq<char>,
    pub local_name: Option<Seq<char>>,
    pub rssi: Option<i16>,
    pub data: Option<Seq<u8>>,
}

pub open spec fn device_view(d: ScannedDevice) -> DeviceView {
    DeviceView {
        address: d.address@,
        local_name: match d.local_name {
            Some(n) => Some(n@),
            None => None,
        },
        rssi: d.rssi,
        data: match d.manufacturer_data {
            Some(v) => Some(v@),
            None => None,
        },
    }
}

/// The devices of a scan as values.
pub open spec fn device_views(devices: Seq<ScannedDevice>) -> Seq<DeviceView> {
    devices.map_values(|d: ScannedDevice| device_view(d))
}

/// A BLE event as a value.
pub enum EventView {
    Discovered { address: Seq<char>, rssi: i16, adv_data: Seq<u8> },
    Connected(Seq<char>),
    Disconnected(Seq<char>),
}

pub open spec fn event_view(e: BleEvent) -> EventView {
    match e {
        BleEvent::PeerDiscovered { address, rssi, adv_data } => EventView::Discovered {
            address: address@,
            rssi,
            adv_data: adv_data@,
        },
        BleEvent::PeerConnected { address } => EventView::Connected(address@),
        BleEvent::PeerDisconnected { address } => EventView::Disconnected(address@),
    }
}

pub open spec fn option_event_view(e: Option<BleEvent>) -> Option<EventView> {
    match e {
        Some(x) => Some(event_view(x)),
        None => None,
    }
}

/// The event reported for a newly discovered device.
pub open spec fn discovered_event(d: DeviceView) -> EventView {
    EventView::Discovered {
        address: d.address,
        rssi: match d.rssi {
            Some(x) => x,
            None => unknown_rssi(),
        },
        adv_data: match d.data {
            Some(v) => v,
            None => Seq::empty(),
        },
    }
}

/// The state of discovery: the addresses discovered so far, in order, and the events
/// of connections and disconnections not yet delivered, in the order they happened.
pub struct DiscoveryState {
    pub known: Seq<Seq<char>>,
    pub pending: Seq<EventView>,
}

/// Nothing discovered, nothing pending.
pub open spec fn initial_discovery() -> DiscoveryState {
    DiscoveryState { known: Seq::empty(), pending: Seq::empty() }
}

/// The first device from index `i` on that is a new peer for the addresses `known`.
pub open spec fn first_new_from(known: Seq<Seq<char>>, devices: Seq<DeviceView>, i: int) -> Option<int>
    decreases devices.len() - i,
{
    if i < 0 || i >= devices.len() {
        None
    } else if is_new_peer(devices[i].address, devices[i].local_name, known.contains(devices[i].address)) {
        Some(i)
    } else {
        first_new_from(known, devices, i + 1)
    }
}

/// One poll over the devices of a scan: the oldest pending event if there is one, else
/// the first device that is a new peer, which becomes known; else nothing.
pub open spec fn poll_state(s: DiscoveryState, devices: Seq<DeviceView>) -> (Option<EventView>, DiscoveryState) {
    if s.pending.len() > 0 {
        (Some(s.pending[0]), DiscoveryState { pending: s.pending.drop_first(), ..s })
    } else {
        match first_new_from(s.known, devices, 0) {
            Some(i) => (
                Some(discovered_event(devices[i])),
                DiscoveryState { known: s.known.push(devices[i].address), ..s },
            ),
            None => (None, s),
        }
    }
}

/// A connection to `address`: its event is queued where the address is known.
pub open spec fn connect_state(s: DiscoveryState, address: Seq<char>) -> DiscoveryState {
    if s.known.contains(address) {
        DiscoveryState { pending: s.pending.push(EventView::Connected(address)), ..s }
    } else {
        s
    }
}

/// A disconnection from `address`: its event is queued where the address is known.
pub open spec fn disconnect_state(s: DiscoveryState, address: Seq<char>) -> DiscoveryState {
    if s.known.contains(address) {
        DiscoveryState { pending: s.pending.push(EventView::Disconnected(address)), ..s }
    } else {
        s
    }
}

/// Discovery state: the addresses of the peripherals discovered so far and the queue of
/// connection events not yet delivered.
pub struct PeerDiscovery {
    known: Vec<String>,
    pending: Vec<BleEvent>,
}

impl View for PeerDiscovery {
    type V = DiscoveryState;

    closed spec fn view(&self) -> DiscoveryState {
        DiscoveryState {
            known: self.known@.map_values(|a: String| a@),
            pending: self.pending@.map_values(|e: BleEvent| event_view(e)),
        }
    }
}

/// Whether a scanned device is a new peer, given whether its address is known.
fn is_new_device(d: &ScannedDevice, known: bool) -> (b: bool)
    ensures
        b == is_new_peer(device_view(*d).address, device_view(*d).local_name, known),
{
    let zero = "00:00:00:00:00:00".to_owned();
    if d.address == zero {
        return false;
    }
    let named = match &d.local_name {
        Some(n) => starts_with(n.as_str(), "libp2p-"),
        None => starts_with("", "libp2p-"),
    };
    proof {
        reveal_strlit("");
    }
    named && !known
}

impl PeerDiscovery {
    /// Nothing discovered, nothing pending.
    pub fn new() -> (d: Self)
        ensures
            d@ == initial_discovery(),
    {
        let d = PeerDiscovery { known: Vec::new(), pending: Vec::new() };
        assert(d@.known =~= Seq::<Seq<char>>::empty());
        assert(d@.pending =~= Seq::<EventView>::empty());
        d
    }

    /// Whether the peripheral at `address` was discovered.
    pub fn is_known(&self, address: &str) -> (b: bool)
        ensures
            b == self@.known.contains(address@),
    {
        let target = address.to_owned();
        let mut i: usize = 0;
        while i < self.known.len()
            invariant
                target@ == address@,
                i <= self.known@.len(),
                forall|j: int| 0 <= j < i ==> self.known@[j]@ != address@,
            decreases self.known@.len() - i,
        {
            if self.known[i] == target {
                assert(self@.known[i as int] == address@);
                return true;
            }
            i = i + 1;
        }
        assert forall|j: int| 0 <= j < self@.known.len() implies self@.known[j] != address@ by {
            assert(self@.known[j] == self.known@[j]@);
        }
        false
    }

    /// Whether connection events wait to be delivered.
    pub fn has_pending(&self) -> (b: bool)
        ensures
            b == (self@.pending.len() > 0),
    {
        self.pending.len() > 0
    }

    /// The addresses discovered so far, in the order of discovery.
    pub fn known_addresses(&self) -> (v: Vec<String>)
        ensures
            v@.map_values(|a: String| a@) == self@.known,
    {
        let mut v: Vec<String> = Vec::new();
        let mut i: usize = 0;
        while i < self.known.len()
            invariant
                i <= self.known@.len(),
                v@.len() == i,
                forall|j: int| 0 <= j < i ==> v@[j]@ == self.known@[j]@,
            decreases self.known@.len() - i,
        {
            v.push(self.known[i].clone());
            i = i + 1;
        }
        assert(v@.map_values(|a: String| a@) =~= self@.known);
        v
    }

    /// Connecting to `address`: refused unless its peripheral was discovered, else its
    /// `PeerConnected` event is queued.
    pub fn connect(&mut self, address: &str) -> (r: Result<(), BleError>)
        ensures
            r is Ok <==> old(self)@.known.contains(address@),
            r is Err ==> (r matches Err(BleError::PeripheralNotFound(a)) && a@ == address@),
            final(self)@ == connect_state(old(self)@, address@),
    {
        let known = self.is_known(address);
        match connect_event(address, known) {
            Ok(e) => {
                self.pending.push(e);
                proof {
                    assert(self@.pending =~= old(self)@.pending.push(EventView::Connected(address@)));
                }
                Ok(())
            },
            Err(err) => Err(err),
        }
    }

    /// Disconnecting from `address`: its `PeerDisconnected` event is queued where its
    /// peripheral was discovered; else nothing happens.
    pub fn disconnect(&mut self, address: &str)
        ensures
            final(self)@ == disconnect_state(old(self)@, address@),
    {
        let known = self.is_known(address);
        if let Some(e) = disconnect_event(address, known) {
            self.pending.push(e);
            proof {
                assert(self@.pending =~= old(self)@.pending.push(EventView::Disconnected(address@)));
            }
        }
    }

    /// One poll: the oldest queued event if there is one; else the first scanned device
    /// that is a new peer, reported as discovered and remembered; else nothing.
    pub fn poll(&mut self, devices: Vec<ScannedDevice>) -> (e: Option<BleEvent>)
        ensures
            (option_event_view(e), final(self)@) == poll_state(old(self)@, device_views(devices@)),
    {
        let ghost views = device_views(devices@);
        if self.pending.len() > 0 {
            let e = self.pending.remove(0);
            proof {
                assert(self@.pending =~= old(self)@.pending.drop_first());
            }
            return Some(e);
        }
        let mut scanned = devices;
        let n = scanned.len();
        let mut i: usize = 0;
        while i < n
            invariant
                n == scanned@.len(),
                views == device_views(scanned@),
                views == device_views(devices@),
                self@ == old(self)@,
                self@.pending.len() == 0,
                i <= n,
                first_new_from(self@.known, views, 0) == first_new_from(self@.known, views, i as int),
            decreases n - i,
        {
            let known = self.is_known(scanned[i].address.as_str());
            assert(views[i as int] == device_view(scanned@[i as int]));
            if is_new_device(&scanned[i], known) {
                assert(first_new_from(self@.known, views, i as int) == Some(i as int));
                let d = scanned.remove(i);
                let ghost dv = views[i as int];
                assert(dv == device_view(d));
                self.known.push(d.address.clone());
                proof {
                    assert(self@.known =~= old(self)@.known.push(dv.address));
                }
                let e = discovery_event(d.address, d.local_name, d.rssi, d.manufacturer_data, false);
                assert(option_event_view(e) == Some(discovered_event(dv)));
                return e;
            }
            i = i + 1;
        }
        None
    }
}

/// What is done to discovery: a poll over the devices of a scan, a connection, or a
/// disconnection.
pub enum DiscoveryCall {
    Poll(Seq<DeviceView>),
    Connect(Seq<char>),
    Disconnect(Seq<char>),
}

/// One call: what it delivers (only polls deliver) and the state after it.
pub open spec fn discovery_step(s: DiscoveryState, c: DiscoveryCall) -> (Option<EventView>, DiscoveryState) {
    match c {
        DiscoveryCall::Poll(devices) => poll_state(s, devices),
        DiscoveryCall::Connect(a) => (None, connect_state(s, a)),
        DiscoveryCall::Disconnect(a) => (None, disconnect_state(s, a)),
    }
}

/// A sequence of calls: what each delivers, and the state after the last.
pub open spec fn run_discovery(s: DiscoveryState, calls: Seq<DiscoveryCall>) -> (Seq<Option<EventView>>, DiscoveryState)
    decreases calls.len(),
{
    if calls.len() == 0 {
        (Seq::empty(), s)
    } else {
        let (outs, t) = run_discovery(s, calls.drop_last());
        let (o, u) = discovery_step(t, calls.last());
        (outs.push(o), u)
    }
}

/// The addresses of the discovery events among `outs`, in order.
pub open spec fn discovered_addresses(outs: Seq<Option<EventView>>) -> Seq<Seq<char>>
    decreases outs.len(),
{
    if outs.len() == 0 {
        Seq::empty()
    } else {
        let rest = discovered_addresses(outs.drop_last());
        match outs.last() {
            Some(EventView::Discovered { address, .. }) => rest.push(address),
            _ => rest,
        }
    }
}

/// The connection and disconnection events among `outs`, in order.
pub open spec fn internal_events(outs: Seq<Option<EventView>>) -> Seq<EventView>
    decreases outs.len(),
{
    if outs.len() == 0 {
        Seq::empty()
    } else {
        let rest = internal_events(outs.drop_last());
        match outs.last() {
            Some(EventView::Discovered { .. }) => rest,
            Some(e) => rest.push(e),
            None => rest,
        }
    }
}

/// The connection and disconnection events that a sequence of calls queues, in order:
/// each call for an address that was known when it was made.
pub open spec fn queued_events(s: DiscoveryState, calls: Seq<DiscoveryCall>) -> Seq<EventView>
    decreases calls.len(),
{
    if calls.len() == 0 {
        Seq::empty()
    } else {
        let before = queued_events(s, calls.drop_last());
        let t = run_discovery(s, calls.drop_last()).1;
        match calls.last() {
            DiscoveryCall::Connect(a) => if t.known.contains(a) {
                before.push(EventView::Connected(a))
            } else {
                before
            },
            DiscoveryCall::Disconnect(a) => if t.known.contains(a) {
                before.push(EventView::Disconnected(a))
            } else {
                before
            },
            DiscoveryCall::Poll(_) => before,
        }
    }
}

/// Whether an event is a connection or disconnection event.
pub open spec fn is_internal(e: EventView) -> bool {
    !(e is Discovered)
}

/// Over any sequence of polls, connections and disconnections: every address is reported
/// as discovered at most once, and never one that was known before; the known addresses
/// are those known before followed by those reported, in order. The queued connection
/// events are delivered before any discovery, in the order they were queued: the ones
/// delivered, followed by the ones still waiting, are those waiting before followed by
/// those queued.
pub proof fn lemma_discovery_after_calls(s: DiscoveryState, calls: Seq<DiscoveryCall>)
    requires
        s.known.no_duplicates(),
        forall|k: int| 0 <= k < s.pending.len() ==> is_internal(#[trigger] s.pending[k]),
    ensures
        run_discovery(s, calls).1.known == s.known + discovered_addresses(run_discovery(s, calls).0),
        run_discovery(s, calls).1.known.no_duplicates(),
        forall|k: int|
            0 <= k < run_discovery(s, calls).1.pending.len() ==> is_internal(
                #[trigger] run_discovery(s, calls).1.pending[k],
            ),
        internal_events(run_discovery(s, calls).0) + run_discovery(s, calls).1.pending == s.pending
            + queued_events(s, calls),
    decreases calls.len(),
{
    if calls.len() == 0 {
        assert(s.known + Seq::<Seq<char>>::empty() =~= s.known);
        assert(Seq::<EventView>::empty() + s.pending =~= s.pending + Seq::<EventView>::empty());
    } else {
        let prev = calls.drop_last();
        lemma_discovery_after_calls(s, prev);
        let (outs, t) = run_discovery(s, prev);
        let (o, u) = discovery_step(t, calls.last());
        assert(run_discovery(s, calls) == (outs.push(o), u));
        assert(outs.push(o).drop_last() =~= outs);
        match calls.last() {
            DiscoveryCall::Poll(devices) => {
                if t.pending.len() > 0 {
                    assert(is_internal(t.pending[0]));
                    assert(internal_events(outs.push(o)) == internal_events(outs).push(t.pending[0]));
                    assert(internal_events(outs).push(t.pending[0]) + t.pending.drop_first()
                        =~= internal_events(outs) + t.pending);
                    assert(discovered_addresses(outs.push(o)) == discovered_addresses(outs));
                    assert forall|k: int| 0 <= k < u.pending.len() implies is_internal(
                        #[trigger] u.pending[k],
                    ) by {
                        assert(u.pending[k] == t.pending[k + 1]);
                    }
                } else {
                    match first_new_from(t.known, devices, 0) {
                        Some(i) => {
                            lemma_first_new_is_new(t.known, devices, 0);
                            let a = devices[i].address;
                            assert(!t.known.contains(a));
                            assert(discovered_addresses(outs.push(o)) == discovered_addresses(outs).push(a));
                            assert(s.known + discovered_addresses(outs).push(a)
                                =~= (s.known + discovered_addresses(outs)).push(a));
                            assert(u.known.no_duplicates()) by {
                                assert forall|x: int, y: int|
                                    0 <= x < u.known.len() && 0 <= y < u.known.len() && x != y
                                    implies u.known[x] != u.known[y] by {
                                    if x == t.known.len() as int {
                                        assert(u.known[y] == t.known[y]);
                                    } else if y == t.known.len() as int {
                                        assert(u.known[x] == t.known[x]);
                                    }
                                }
                            }
                        },
                        None => {},
                    }
                    assert(internal_events(outs.push(o)) == internal_events(outs));
                }
            },
            DiscoveryCall::Connect(a) => {
                assert(internal_events(outs.push(o)) == internal_events(outs));
                assert(discovered_addresses(outs.push(o)) == discovered_addresses(outs));
                if t.known.contains(a) {
                    assert(internal_events(outs) + t.pending.push(EventView::Connected(a))
                        =~= (internal_events(outs) + t.pending).push(EventView::Connected(a)));
                    assert(s.pending + queued_events(s, prev).push(EventView::Connected(a))
                        =~= (s.pending + queued_events(s, prev)).push(EventView::Connected(a)));
                    assert forall|k: int| 0 <= k < u.pending.len() implies is_internal(
                        #[trigger] u.pending[k],
                    ) by {
                        if k < t.pending.len() {
                            assert(u.pending[k] == t.pending[k]);
                        }
                    }
                }
            },
            DiscoveryCall::Disconnect(a) => {
                assert(internal_events(outs.push(o)) == internal_events(outs));
                assert(discovered_addresses(outs.push(o)) == discovered_addresses(outs));
                if t.known.contains(a) {
                    assert(internal_events(outs) + t.pending.push(EventView::Disconnected(a))
                        =~= (internal_events(outs) + t.pending).push(EventView::Disconnected(a)));
                    assert(s.pending + queued_events(s, prev).push(EventView::Disconnected(a))
                        =~= (s.pending + queued_events(s, prev)).push(EventView::Disconnected(a)));
                    assert forall|k: int| 0 <= k < u.pending.len() implies is_internal(
                        #[trigger] u.pending[k],
                    ) by {
                        if k < t.pending.len() {
                            assert(u.pending[k] == t.pending[k]);
                        }
                    }
                }
            },
        }
    }
}

/// The device that `first_new_from` picks is in range and is a new peer.
proof fn lemma_first_new_is_new(known: Seq<Seq<char>>, devices: Seq<DeviceView>, i: int)
    ensures
        first_new_from(known, devices, i) matches Some(j) ==> 0 <= j < devices.len()
            && is_new_peer(devices[j].address, devices[j].local_name, known.contains(devices[j].address)),
    decreases devices.len() - i,
{
    if 0 <= i < devices.len() {
        lemma_first_new_is_new(known, devices, i + 1);
    }
}

/// The value of a lower-case hexadecimal digit: `0`..`9` are 0 to 9, `a`..`f` are 10 to
/// 15; any other character is no digit (-1).
pub open spec fn lower_hex_value(c: char) -> int {
    if '0' <= c && c <= '9' {
        c as int - '0' as int
    } else if 'a' <= c && c <= 'f' {
        c as int - 'a' as int + 10
    } else {
        -1
    }
}

/// Each half of a byte is written as its lower-case hexadecimal digit, which reads back
/// as that half.
proof fn lemma_hex_byte_reads_back(b: u8)
    ensures
        hex_byte(b).len() == 2,
        0 <= lower_hex_value(hex_byte(b)[0]) < 16,
        0 <= lower_hex_value(hex_byte(b)[1]) < 16,
        lower_hex_value(hex_byte(b)[0]) * 16 + lower_hex_value(hex_byte(b)[1]) == b as int,
{
    let hi = b as int / 16;
    let lo = b as int % 16;
    assert(0 <= hi < 16 && 0 <= lo < 16);
    assert(hi * 16 + lo == b as int);
}

/// The name a node advertises is `libp2p-` followed by eight lower-case hexadecimal
/// digits, two per byte, high half first, which read back as the first four bytes of its
/// short id.
pub proof fn lemma_advertised_name_reads_back(short_id: Seq<u8>)
    requires
        short_id.len() == 8,
    ensures
        advertised_name(short_id).len() == 15,
        advertised_name(short_id).subrange(0, 7) == "libp2p-"@,
        forall|k: int|
            0 <= k < 4 ==> {
                &&& 0 <= lower_hex_value(#[trigger] advertised_name(short_id)[7 + 2 * k]) < 16
                &&& 0 <= lower_hex_value(advertised_name(short_id)[8 + 2 * k]) < 16
                &&& lower_hex_value(advertised_name(short_id)[7 + 2 * k]) * 16 + lower_hex_value(
                    advertised_name(short_id)[8 + 2 * k],
                ) == short_id[k] as int
            },
{
    reveal_strlit("libp2p-");
    let name = advertised_name(short_id);
    lemma_hex_byte_reads_back(short_id[0]);
    lemma_hex_byte_reads_back(short_id[1]);
    lemma_hex_byte_reads_back(short_id[2]);
    lemma_hex_byte_reads_back(short_id[3]);
    assert(name.subrange(0, 7) =~= "libp2p-"@);
    assert forall|k: int| 0 <= k < 4 implies {
        &&& 0 <= lower_hex_value(#[trigger] name[7 + 2 * k]) < 16
        &&& 0 <= lower_hex_value(name[8 + 2 * k]) < 16
        &&& lower_hex_value(name[7 + 2 * k]) * 16 + lower_hex_value(name[8 + 2 * k]) == short_id[k] as int
    } by {
        assert(name[7 + 2 * k] == hex_byte(short_id[k])[0]);
        assert(name[8 + 2 * k] == hex_byte(short_id[k])[1]);
    }
}

/// A scanned device is a new peer exactly when its address is a real one (not
/// `00:00:00:00:00:00`), it was not discovered before, and it has a local name that
/// begins with `libp2p-`; a device without a name, or with any other name, never is.
pub proof fn lemma_new_peer_needs_network_name(address: Seq<char>, local_name: Option<Seq<char>>, known: bool)
    ensures
        is_new_peer(address, local_name, known) <==> {
            &&& address != "00:00:00:00:00:00"@
            &&& !known
            &&& local_name matches Some(n) && n.len() >= 7 && n.subrange(0, 7) == "libp2p-"@
        },
{
    reveal_strlit("libp2p-");
    match local_name {
        Some(n) => {
            if n.len() >= 7 && n.subrange(0, 7) == "libp2p-"@ {
                assert(name_prefix().is_prefix_of(n));
            }
        },
        None => {},
    }
}

/// What `first_new_from` picks: the first device from `i` on that is a new peer, or none
/// when no device from `i` on is one.
proof fn lemma_first_new_from_is_first(known: Seq<Seq<char>>, devices: Seq<DeviceView>, i: int)
    requires
        0 <= i,
    ensures
        first_new_from(known, devices, i) matches Some(j) ==> {
            &&& i <= j < devices.len()
            &&& is_new_peer(devices[j].address, devices[j].local_name, known.contains(devices[j].address))
            &&& forall|l: int|
                i <= l < j ==> !is_new_peer(
                    #[trigger] devices[l].address,
                    devices[l].local_name,
                    known.contains(devices[l].address),
                )
        },
        first_new_from(known, devices, i) is None ==> forall|l: int|
            i <= l < devices.len() ==> !is_new_peer(
                #[trigger] devices[l].address,
                devices[l].local_name,
                known.contains(devices[l].address),
            ),
    decreases devices.len() - i,
{
    if i < devices.len() {
        lemma_first_new_from_is_first(known, devices, i + 1);
    }
}

/// With no event queued, a poll reports a discovery exactly when some scanned device is a
/// new peer, and then the first such device of the scan, which becomes known; it reports
/// nothing, and changes nothing, only when no device of the scan is a new peer.
pub proof fn lemma_poll_reports_first_new_peer(s: DiscoveryState, devices: Seq<DeviceView>)
    requires
        s.pending.len() == 0,
    ensures
        poll_state(s, devices).0 is None <==> forall|l: int|
            0 <= l < devices.len() ==> !is_new_peer(
                #[trigger] devices[l].address,
                devices[l].local_name,
                s.known.contains(devices[l].address),
            ),
        poll_state(s, devices).0 is None ==> poll_state(s, devices).1 == s,
        poll_state(s, devices).0 is Some ==> exists|i: int|
            {
                &&& 0 <= i < devices.len()
                &&& is_new_peer(devices[i].address, devices[i].local_name, s.known.contains(devices[i].address))
                &&& forall|l: int|
                    0 <= l < i ==> !is_new_peer(
                        #[trigger] devices[l].address,
                        devices[l].local_name,
                        s.known.contains(devices[l].address),
                    )
                &&& poll_state(s, devices).0 == Some(
                    EventView::Discovered {
                        address: devices[i].address,
                        rssi: match devices[i].rssi {
                            Some(x) => x,
                            None => -127i16,
                        },
                        adv_data: match devices[i].data {
                            Some(v) => v,
                            None => Seq::empty(),
                        },
                    },
                )
                &&& poll_state(s, devices).1.known == s.known.push(devices[i].address)
                &&& poll_state(s, devices).1.pending == s.pending
            },
{
    lemma_first_new_from_is_first(s.known, devices, 0);
    match first_new_from(s.known, devices, 0) {
        Some(i) => {
            assert(!(forall|l: int|
                0 <= l < devices.len() ==> !is_new_peer(
                    #[trigger] devices[l].address,
                    devices[l].local_name,
                    s.known.contains(devices[l].address),
                )));
        },
        None => {},
    }
}

} // verus!
