//! Node identities and the compact ids that fit a BLE advertisement.
use vstd::prelude::*;
use vstd::utf8::encode_utf8;

verus! {

/// One step of the per-lane fold: multiply the lane by 31 and add the byte, modulo 256.
pub open spec fn lane_step(acc: u8, byte: u8) -> u8 {
    ((acc as int * 31 + byte as int) % 256) as u8
}

/// The eight-byte short id of a byte string: byte `i` is folded into lane `i % 8`,
/// starting from eight zero lanes.
pub open spec fn short_id_of(bytes: Seq<u8>) -> Seq<u8>
    decreases bytes.len(),
{
    if bytes.len() == 0 {
        Seq::new(8, |_i: int| 0u8)
    } else {
        let prev = short_id_of(bytes.drop_last());
        let lane = (bytes.len() - 1) % 8;
        prev.update(lane, lane_step(prev[lane], bytes.last()))
    }
}

/// A short id always has eight lanes.
pub proof fn lemma_short_id_len(bytes: Seq<u8>)
    ensures
        short_id_of(bytes).len() == 8,
    decreases bytes.len(),
{
    if bytes.len() > 0 {
        lemma_short_id_len(bytes.drop_last());
    }
}

/// A peer id of at most eight bytes is its own short id, padded with zero bytes: each of
/// its bytes lands alone in its lane, and the other lanes stay empty.
pub proof fn lemma_short_id_of_short_bytes(bytes: Seq<u8>)
    requires
        bytes.len() <= 8,
    ensures
        short_id_of(bytes).len() == 8,
        forall|k: int|
            0 <= k < 8 ==> #[trigger] short_id_of(bytes)[k] == if k < bytes.len() {
                bytes[k]
            } else {
                0u8
            },
    decreases bytes.len(),
{
    lemma_short_id_len(bytes);
    if bytes.len() > 0 {
        let prev = bytes.drop_last();
        lemma_short_id_of_short_bytes(prev);
        let lane = (bytes.len() - 1) % 8;
        assert(lane == bytes.len() - 1);
        assert(short_id_of(prev)[lane] == 0u8);
        assert(lane_step(0u8, bytes.last()) == bytes.last());
        assert forall|k: int| 0 <= k < 8 implies #[trigger] short_id_of(bytes)[k] == if k
            < bytes.len() {
            bytes[k]
        } else {
            0u8
        } by {
            if k < bytes.len() - 1 {
                assert(bytes[k] == prev[k]);
            }
        }
    }
}

/// Appending a byte to a peer id changes exactly one lane of its short id, the one at
/// the new byte's position modulo 8: that lane becomes `lane * 31 + byte` modulo 256, at
/// every length; every other lane is unchanged.
pub proof fn lemma_short_id_push(bytes: Seq<u8>, x: u8)
    ensures
        short_id_of(bytes.push(x)).len() == 8,
        short_id_of(bytes.push(x))[bytes.len() as int % 8] as int == (short_id_of(bytes)[bytes.len() as int % 8] as int
            * 31 + x as int) % 256,
        forall|k: int|
            0 <= k < 8 && k != bytes.len() as int % 8 ==> #[trigger] short_id_of(bytes.push(x))[k]
                == short_id_of(bytes)[k],
{
    assert(bytes.push(x).drop_last() =~= bytes);
    lemma_short_id_len(bytes);
    lemma_short_id_len(bytes.push(x));
}

/// Multiplying a lane by 31 and adding a byte, modulo 256, keeps different lanes
/// different: 31 is odd, so it is invertible modulo 256.
proof fn lemma_lane_step_injective(a1: u8, a2: u8, x: u8)
    requires
        a1 != a2,
    ensures
        (a1 as int * 31 + x as int) % 256 != (a2 as int * 31 + x as int) % 256,
{
    let y1: u32 = a1 as u32;
    let y2: u32 = a2 as u32;
    let z: u32 = x as u32;
    assert((y1 * 31 + z) % 256 != (y2 * 31 + z) % 256) by (bit_vector)
        requires
            y1 != y2,
            y1 < 256,
            y2 < 256,
            z < 256,
    ;
}

/// Two byte strings of the same length that differ at position `p` only: after folding
/// their first `m` bytes (`m > p`), the lane of `p` differs and all other lanes agree.
proof fn lemma_short_id_prefixes_differ(b1: Seq<u8>, b2: Seq<u8>, p: int, m: int)
    requires
        b1.len() == b2.len(),
        0 <= p < m <= b1.len(),
        b1[p] != b2[p],
        forall|j: int| 0 <= j < b1.len() && j != p ==> b1[j] == b2[j],
    ensures
        short_id_of(b1.take(m))[p % 8] != short_id_of(b2.take(m))[p % 8],
        forall|k: int|
            0 <= k < 8 && k != p % 8 ==> #[trigger] short_id_of(b1.take(m))[k] == short_id_of(
                b2.take(m),
            )[k],
    decreases m,
{
    let t1 = b1.take(m - 1);
    let t2 = b2.take(m - 1);
    let x1 = b1[m - 1];
    let x2 = b2[m - 1];
    assert(b1.take(m) =~= t1.push(x1));
    assert(b2.take(m) =~= t2.push(x2));
    let s1 = short_id_of(t1.push(x1));
    let s2 = short_id_of(t2.push(x2));
    let q = (m - 1) % 8;
    let l = p % 8;
    lemma_short_id_push(t1, x1);
    lemma_short_id_push(t2, x2);
    lemma_short_id_len(t1);
    lemma_short_id_len(t2);
    assert(t1.len() == m - 1 && t2.len() == m - 1);
    if m == p + 1 {
        assert(t1 =~= t2);
        assert(q == l);
        assert(s1[l] != s2[l]);
        assert forall|k: int| 0 <= k < 8 && k != l implies #[trigger] s1[k] == s2[k] by {
            assert(s1[k] == short_id_of(t1)[k]);
            assert(s2[k] == short_id_of(t2)[k]);
        }
    } else {
        lemma_short_id_prefixes_differ(b1, b2, p, m - 1);
        assert(x1 == x2);
        let a1 = short_id_of(t1);
        let a2 = short_id_of(t2);
        if q == l {
            lemma_lane_step_injective(a1[l], a2[l], x1);
            assert(s1[l] != s2[l]);
            assert forall|k: int| 0 <= k < 8 && k != l implies #[trigger] s1[k] == s2[k] by {
                assert(s1[k] == a1[k]);
                assert(s2[k] == a2[k]);
            }
        } else {
            assert(s1[l] == a1[l]);
            assert(s2[l] == a2[l]);
            assert forall|k: int| 0 <= k < 8 && k != l implies #[trigger] s1[k] == s2[k] by {
                if k == q {
                    assert(a1[q] == a2[q]);
                } else {
                    assert(s1[k] == a1[k]);
                    assert(s2[k] == a2[k]);
                }
            }
        }
    }
}

/// Every byte of a peer id counts: two peer ids of the same length that differ in exactly
/// one byte, at any position, have different short ids.
pub proof fn lemma_short_id_detects_one_byte_change(b1: Seq<u8>, b2: Seq<u8>, p: int)
    requires
        b1.len() == b2.len(),
        0 <= p < b1.len(),
        b1[p] != b2[p],
        forall|j: int| 0 <= j < b1.len() && j != p ==> b1[j] == b2[j],
    ensures
        short_id_of(b1) != short_id_of(b2),
{
    lemma_short_id_prefixes_differ(b1, b2, p, b1.len() as int);
    assert(b1.take(b1.len() as int) =~= b1);
    assert(b2.take(b2.len() as int) =~= b2);
}

/// The base-58 text of the peer id derived from the public key whose protobuf
/// encoding is `encoded`, or `None` where those bytes do not decode to a public key.
pub uninterp spec fn peer_id_text_of_key(encoded: Seq<u8>) -> Option<Seq<char>>;

/// Calls `Keypair::generate_ed25519` of libp2p and returns `encode_protobuf` of the new
/// key pair's public key. The key is random, so no name is given to the bytes. Claimed:
/// the protobuf encoding of an Ed25519 public key is the four header bytes
/// `08 01 12 20` (key type Ed25519, 32 bytes of data) followed by the 32 key bytes, and
/// these bytes decode back to a public key, so a peer id can be derived from them.
#[verifier::external_body]
fn generate_ed25519_public_key() -> (encoded: Vec<u8>)
    ensures
        encoded@.len() == 36,
        encoded@.take(4) == seq![8u8, 1u8, 18u8, 32u8],
        peer_id_text_of_key(encoded@) is Some,
{
    libp2p::identity::Keypair::generate_ed25519().public().encode_protobuf()
}

/// Calls `PublicKey::try_decode_protobuf` of libp2p on `encoded` and, where it decodes,
/// `PeerId::from_public_key` and the peer id's text form. Claimed: the result is
/// `peer_id_text_of_key(encoded)`, a function of the bytes alone.
#[verifier::external_body]
fn peer_id_text(encoded: &[u8]) -> (text: Option<String>)
    ensures
        text is Some <==> peer_id_text_of_key(encoded@) is Some,
        text matches Some(t) ==> peer_id_text_of_key(encoded@) == Some(t@),
{
    match libp2p::identity::PublicKey::try_decode_protobuf(encoded) {
        Ok(key) => Some(libp2p::PeerId::from_public_key(&key).to_string()),
        Err(_) => None,
    }
}

/// A node's identity: its textual peer id and the protobuf encoding of its public key.
#[derive(Clone, Debug)]
pub struct NodeIdentity {
    pub peer_id: String,
    pub public_key_bytes: Vec<u8>,
}

impl NodeIdentity {
    /// The UTF-8 bytes of the peer id.
    pub open spec fn peer_id_bytes(&self) -> Seq<u8> {
        encode_utf8(self.peer_id@)
    }

    /// Generates a new random Ed25519 identity: the peer id is the one derived from the
    /// public key, whose protobuf encoding (key type Ed25519, then the 32 key bytes) is
    /// kept alongside it.
    pub fn generate() -> (id: Self)
        ensures
            id.public_key_bytes@.len() == 36,
            id.public_key_bytes@.take(4) == seq![8u8, 1u8, 18u8, 32u8],
            peer_id_text_of_key(id.public_key_bytes@) == Some(id.peer_id@),
    {
        let encoded = generate_ed25519_public_key();
        Self::from_public_key_protobuf(encoded).unwrap()
    }

    /// The identity of the public key whose protobuf encoding is `encoded`: `None` where
    /// the bytes are not a public key, else its peer id together with the bytes.
    pub fn from_public_key_protobuf(encoded: Vec<u8>) -> (id: Option<Self>)
        ensures
            id is Some <==> peer_id_text_of_key(encoded@) is Some,
            id matches Some(n) ==> {
                &&& Some(n.peer_id@) == peer_id_text_of_key(encoded@)
                &&& n.public_key_bytes@ == encoded@
            },
    {
        match peer_id_text(encoded.as_slice()) {
            Some(peer_id) => Some(NodeIdentity { peer_id, public_key_bytes: encoded }),
            None => None,
        }
    }

    /// A compact eight-byte id for BLE payloads, folded from the peer id's bytes.
    pub fn short_id(&self) -> (out: [u8; 8])
        ensures
            out@ == short_id_of(self.peer_id_bytes()),
    {
        let bytes = self.peer_id.as_str().as_bytes();
        let mut out = [0u8; 8];
        let mut i: usize = 0;
        assert(bytes@.take(0) =~= Seq::<u8>::empty());
        assert(out@ =~= short_id_of(Seq::<u8>::empty()));
        while i < bytes.len()
            invariant
                i <= bytes@.len(),
                bytes@ == self.peer_id_bytes(),
                out@ == short_id_of(bytes@.take(i as int)),
            decreases bytes@.len() - i,
        {
            let lane: usize = i % 8;
            let acc: u8 = out[lane];
            let byte: u8 = bytes[i];
            let next: u8 = acc.wrapping_mul(31).wrapping_add(byte);
            proof {
                assert(bytes@.take(i + 1).drop_last() =~= bytes@.take(i as int));
                lemma_short_id_len(bytes@.take(i as int));
                assert(next == lane_step(acc, byte)) by (nonlinear_arith)
                    requires
                        next == vstd::wrapping::u8_specs::wrapping_add(
                            vstd::wrapping::u8_specs::wrapping_mul(acc, 31), byte),
                ;
            }
            out[lane] = next;
            i = i + 1;
        }
        assert(bytes@.take(bytes@.len() as int) =~= bytes@);
        out
    }
}

} // verus!
