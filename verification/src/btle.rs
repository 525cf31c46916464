//! The minimal BLE transport: its events, and how a stream hands received data to a
//! reader's buffer.
use vstd::prelude::*;

verus! {

/// Events of a BLE transport, over its peer data `P` and its stream type `S`.
pub enum BtleEvent<P, S> {
    PeerDiscovered { id: P },
    InviteReceived { id: P },
    InviteAccepted { id: P },
    SessionClosed { id: P },
    IncomingConnection { id: P, stream: S },
}

/// Copies the start of a received chunk into a reader's buffer: as many bytes as both
/// hold; the rest of the chunk is dropped and the rest of the buffer left as it was.
/// Returns the number of bytes copied.
pub fn fill_read_buffer(data: &[u8], buf: &mut [u8]) -> (n: usize)
    ensures
        n as int == if data@.len() < old(buf)@.len() { data@.len() } else { old(buf)@.len() },
        final(buf)@.len() == old(buf)@.len(),
        final(buf)@.subrange(0, n as int) == data@.subrange(0, n as int),
        final(buf)@.subrange(n as int, final(buf)@.len() as int) == old(buf)@.subrange(
            n as int,
            old(buf)@.len() as int,
        ),
{
    let len = if data.len() < buf.len() {
        data.len()
    } else {
        buf.len()
    };
    let mut i: usize = 0;
    while i < len
        invariant
            len <= data@.len(),
            len <= old(buf)@.len(),
            buf@.len() == old(buf)@.len(),
            i <= len,
            forall|j: int| 0 <= j < i ==> buf@[j] == data@[j],
            forall|j: int| i <= j < buf@.len() ==> buf@[j] == old(buf)@[j],
        decreases len - i,
    {
        buf[i] = data[i];
        i = i + 1;
    }
    assert(buf@.subrange(0, len as int) =~= data@.subrange(0, len as int));
    assert(buf@.subrange(len as int, buf@.len() as int) =~= old(buf)@.subrange(
        len as int,
        old(buf)@.len() as int,
    ));
    len
}

} // verus!
