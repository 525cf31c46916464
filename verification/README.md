# ble-network-upgrade

Logic of a libp2p node that finds its peers over Bluetooth Low Energy and upgrades the
link to Multipeer Connectivity, verified with Verus.

- `src/` is the verified library: identities and their eight-byte short ids (`identity`),
  the negotiation messages (`protocol`), the transport state and its upgrade and fallback
  (`transport`), Multipeer roles, the session delegate's state and the wait and send decisions (`multipeer`), the BLE
  discovery state (known peers, queued connection events), its rules and advertised names (`ble`), the standalone node's decisions (`node`)
  and the stream buffer handling of the minimal BLE transport (`btle`). Key generation and
  peer-id derivation are libp2p's, called behind two trusted wrappers in `identity`.
- `app/` holds the program and everything that talks to radios and operating-system
  frameworks (btleplug, ble-peripheral-rust, CoreBluetooth, Multipeer Connectivity,
  tokio), plus the JSON encoding of messages through serde.
- `tests/` exercises the library on concrete values.
