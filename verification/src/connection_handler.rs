//! The interceptor's view of a node and its peers: which connection halves
//! it reads from and writes to, how an intercepted chunk is framed into a
//! message, what the controller's action means for its delivery, and to
//! which peer a message goes.
use vstd::prelude::*;

use crate::text::prefix_vec;

verus! {

/// One kibibyte.
pub const SIZE_KB: usize = 1024;
/// One mebibyte.
pub const SIZE_MB: usize = 1048576;
/// The size of the buffer that one read from a node fills.
pub const SIZE_64KB: usize = 65536;
/// Sixty-four mebibytes.
pub const SIZE_64MB: usize = 67108864;

/// A message on its way to the peer listening on `peer_to_port`.
#[derive(Debug)]
pub struct Message {
    pub data: Vec<u8>,
    pub peer_to_port: u16,
}

impl Message {
    pub fn new(data: Vec<u8>, peer_to_port: u16) -> (m: Self)
        ensures
            m.data@ == data@,
            m.peer_to_port == peer_to_port,
    {
        Self { data, peer_to_port }
    }
}

/// A peer as seen from one node: `write_half` is what the interceptor writes
/// to when it delivers to that peer, `read_half` is where the node writes what
/// it sends to the peer.
#[derive(Debug)]
pub struct Peer<W, R> {
    pub port: u16,
    pub write_half: W,
    pub read_half: R,
}

impl<W, R> Peer<W, R> {
    /// Makes a new peer from a node's perspective.
    pub fn new(port: u16, write_half: W, read_half: R) -> (p: Self)
        ensures
            p.port == port,
            p.write_half == write_half,
            p.read_half == read_half,
    {
        Self { port, write_half, read_half }
    }
}

/// What one reading task needs: the half to read from, the node it reads from
/// and the peer the messages are meant for.
#[derive(Debug)]
pub struct ReadTask<R> {
    pub read_half: R,
    pub peer_from_port: u16,
    pub peer_to_port: u16,
}

/// `reads` and `writes` are one reading task and one keyed write half per peer
/// of the node on `port`, in the order of `peers`.
pub open spec fn is_task_split<W, R>(port: u16, peers: Seq<Peer<W, R>>, reads: Seq<ReadTask<R>>, writes: Seq<(u16, W)>) -> bool {
    &&& reads.len() == peers.len()
    &&& writes.len() == peers.len()
    &&& forall|k: int| 0 <= k < peers.len() ==> {
        &&& (#[trigger] reads[k]).read_half == peers[k].read_half
        &&& reads[k].peer_from_port == port
        &&& reads[k].peer_to_port == peers[k].port
        &&& writes[k] == (peers[k].port, peers[k].write_half)
    }
}

/// Every message read by a task of the node is meant for a peer that has a
/// write half, so the writing task can always route it.
pub proof fn lemma_every_destination_has_writer<W, R>(
    port: u16,
    peers: Seq<Peer<W, R>>,
    reads: Seq<ReadTask<R>>,
    writes: Seq<(u16, W)>,
)
    requires
        is_task_split(port, peers, reads, writes),
    ensures
        forall|k: int| 0 <= k < reads.len() ==> has_writer(writes, #[trigger] reads[k].peer_to_port),
{
    assert forall|k: int| 0 <= k < reads.len() implies has_writer(writes, #[trigger] reads[k].peer_to_port) by {
        assert(writes[k].0 == reads[k].peer_to_port);
    }
}

/// Some write half is keyed by `port`.
pub open spec fn has_writer<W>(writes: Seq<(u16, W)>, port: u16) -> bool {
    exists|j: int| 0 <= j < writes.len() && #[trigger] writes[j].0 == port
}

/// A node with the peers it is connected to through the interceptor.
#[derive(Debug)]
pub struct Node<W, R> {
    pub port: u16,
    pub peers: Vec<Peer<W, R>>,
}

impl<W, R> Node<W, R> {
    /// A node listening on `port`, with no peers yet.
    pub fn new(port: u16) -> (n: Self)
        ensures
            n.port == port,
            n.peers@.len() == 0,
    {
        Self { port, peers: Vec::new() }
    }

    /// Adds `peer` after the peers already known.
    pub fn add_peer(&mut self, peer: Peer<W, R>)
        ensures
            final(self).port == old(self).port,
            final(self).peers@ == old(self).peers@.push(peer),
    {
        self.peers.push(peer);
    }

    /// Splits the node into one reading task per peer (reading what the node
    /// sends to that peer) and the table of write halves keyed by peer port,
    /// both in the order the peers were added.
    pub fn into_tasks(self) -> (r: (Vec<ReadTask<R>>, Vec<(u16, W)>))
        ensures
            is_task_split(self.port, self.peers@, r.0@, r.1@),
    {
        let ghost all = self.peers@;
        let port = self.port;
        let mut rest = self.peers;
        let mut reads: Vec<ReadTask<R>> = Vec::new();
        let mut writes: Vec<(u16, W)> = Vec::new();
        while rest.len() > 0
            invariant
                reads@.len() == writes@.len(),
                reads@.len() + rest@.len() == all.len(),
                rest@ == all.subrange(reads@.len() as int, all.len() as int),
                forall|k: int| 0 <= k < reads@.len() ==> {
                    &&& (#[trigger] reads@[k]).read_half == all[k].read_half
                    &&& reads@[k].peer_from_port == port
                    &&& reads@[k].peer_to_port == all[k].port
                    &&& writes@[k] == (all[k].port, all[k].write_half)
                },
            decreases rest@.len(),
        {
            let ghost k = reads@.len() as int;
            let peer = rest.remove(0);
            assert(peer == all[k]);
            reads.push(ReadTask { read_half: peer.read_half, peer_from_port: port, peer_to_port: peer.port });
            writes.push((peer.port, peer.write_half));
            assert(rest@ =~= all.subrange(reads@.len() as int, all.len() as int));
        }
        (reads, writes)
    }
}

/// Why an intercepted chunk is not a message that can be forwarded.
#[derive(Debug, Clone, Copy, PartialEq, Eq, Structural)]
pub enum MessageError {
    /// The most significant bit of the first byte is set: a compressed message.
    Compressed(u8),
    /// Some of the six most significant bits of the first byte are set: an unknown header.
    UnknownVersionHeader(u8),
    /// The buffer holds less than the header announces.
    Truncated,
}

/// The payload size that a header announces: the first four bytes, big endian.
pub open spec fn header_payload_size(b: Seq<u8>) -> nat {
    (b[0] as nat) * 16777216 + (b[1] as nat) * 65536 + (b[2] as nat) * 256 + (b[3] as nat)
}

/// The first byte marks a compressed message.
pub open spec fn is_compressed(b0: u8) -> bool {
    b0 & 0x80 != 0
}

/// The first byte carries an unknown version header.
pub open spec fn has_unknown_header(b0: u8) -> bool {
    b0 & 0xFC != 0
}

/// The outcome of checking an intercepted chunk: the full message (six bytes of
/// header and the announced payload), or why there is none.
pub open spec fn spec_check_message(b: Seq<u8>) -> Result<Seq<u8>, MessageError> {
    if b.len() == 0 {
        Err(MessageError::Truncated)
    } else if is_compressed(b[0]) {
        Err(MessageError::Compressed(b[0]))
    } else if has_unknown_header(b[0]) {
        Err(MessageError::UnknownVersionHeader(b[0]))
    } else if b.len() < 4 || b.len() < 6 + header_payload_size(b) {
        Err(MessageError::Truncated)
    } else {
        Ok(b.subrange(0, 6 + header_payload_size(b) as int))
    }
}

/// Reads the payload size from the four header bytes, big endian.
pub fn payload_size(buf: &[u8]) -> (size: u32)
    requires
        buf@.len() >= 4,
    ensures
        size == header_payload_size(buf@),
{
    let b0 = buf[0] as u32;
    let b1 = buf[1] as u32;
    let b2 = buf[2] as u32;
    let b3 = buf[3] as u32;
    b0 * 16777216 + b1 * 65536 + b2 * 256 + b3
}

/// A known header (none of the six high bits of the first byte set) announces
/// less than 64 MiB of payload.
pub proof fn lemma_known_header_small(b: Seq<u8>)
    requires
        b.len() >= 4,
        !has_unknown_header(b[0]),
    ensures
        b[0] < 4,
        header_payload_size(b) < 67108864,
{
    let b0 = b[0];
    assert(b0 & 0xFC == 0 ==> b0 < 4) by (bit_vector);
}

/// Why an intercepted chunk is not a message, if it is not one: what the
/// message check would fail on.
pub fn message_error(buf: &[u8]) -> (r: Option<MessageError>)
    ensures
        r == match spec_check_message(buf@) {
            Ok(_) => None,
            Err(e) => Some(e),
        },
{
    if buf.len() == 0 {
        return Some(MessageError::Truncated);
    }
    let b0 = buf[0];
    if b0 & 0x80 != 0 {
        return Some(MessageError::Compressed(b0));
    }
    if b0 & 0xFC != 0 {
        return Some(MessageError::UnknownVersionHeader(b0));
    }
    if buf.len() < 4 {
        return Some(MessageError::Truncated);
    }
    proof { lemma_known_header_small(buf@); }
    let size = payload_size(buf) as usize;
    if buf.len() < 6 || buf.len() - 6 < size {
        return Some(MessageError::Truncated);
    }
    None
}

/// Returns the message held by an intercepted chunk: its six header bytes and
/// the payload they announce. Chunks that are not a message (compressed, with
/// an unknown header, or shorter than announced) are left out.
pub fn check_message(buf: &[u8]) -> (m: Vec<u8>)
    requires
        spec_check_message(buf@) is Ok,
    ensures
        spec_check_message(buf@) == Ok::<Seq<u8>, MessageError>(m@),
{
    proof { lemma_known_header_small(buf@); }
    let size = payload_size(buf) as usize;
    prefix_vec(buf, size + 6)
}

/// What to do with a message once the controller has answered.
#[derive(Debug, Clone, Copy, PartialEq, Eq, Structural)]
pub enum Delivery {
    /// The message is dropped.
    Drop,
    /// The message is sent after waiting `delay_ms` milliseconds more.
    Send { delay_ms: u64 },
}

/// The delivery that the controller's `action` asks for, `elapsed_ms` after
/// the message was read: `0` sends at once, `u32::MAX` drops, any other value
/// is a delay counted from the read, of which what has already elapsed is not
/// waited again.
pub open spec fn spec_delivery(action: u32, elapsed_ms: u128) -> Delivery {
    if action == 0 {
        Delivery::Send { delay_ms: 0 }
    } else if action == u32::MAX {
        Delivery::Drop
    } else if elapsed_ms < action as u128 {
        Delivery::Send { delay_ms: (action - elapsed_ms) as u64 }
    } else {
        Delivery::Send { delay_ms: 0 }
    }
}

/// Decides how to deliver a message given the controller's action.
pub fn plan_delivery(action: u32, elapsed_ms: u128) -> (d: Delivery)
    ensures
        d == spec_delivery(action, elapsed_ms),
{
    if action == 0 {
        Delivery::Send { delay_ms: 0 }
    } else if action == u32::MAX {
        Delivery::Drop
    } else {
        let delay_ms = action as u128;
        if elapsed_ms < delay_ms {
            let compensated = delay_ms - elapsed_ms;
            Delivery::Send { delay_ms: compensated as u64 }
        } else {
            Delivery::Send { delay_ms: 0 }
        }
    }
}

/// Whether some write half is keyed by `port`.
pub fn has_writer_for<W>(writers: &Vec<(u16, W)>, port: u16) -> (r: bool)
    ensures
        r == has_writer(writers@, port),
{
    let mut k: usize = 0;
    while k < writers.len()
        invariant
            k <= writers@.len(),
            forall|j: int| 0 <= j < k ==> writers@[j].0 != port,
        decreases writers@.len() - k,
    {
        if writers[k].0 == port {
            return true;
        }
        k += 1;
    }
    false
}

/// The position of the first write half whose port is `port`. A port without
/// a write half is left out.
pub fn writer_index<W>(writers: &Vec<(u16, W)>, port: u16) -> (k: usize)
    requires
        has_writer(writers@, port),
    ensures
        k < writers@.len(),
        writers@[k as int].0 == port,
        forall|j: int| 0 <= j < k ==> writers@[j].0 != port,
{
    let mut k: usize = 0;
    while k < writers.len()
        invariant
            k <= writers@.len(),
            has_writer(writers@, port),
            forall|j: int| 0 <= j < k ==> writers@[j].0 != port,
        decreases writers@.len() - k,
    {
        if writers[k].0 == port {
            return k;
        }
        k += 1;
    }
    proof {
        let j = choose|j: int| 0 <= j < writers@.len() && #[trigger] writers@[j].0 == port;
        assert(writers@[j].0 != port);
    }
    0
}

/// Checking a message that has already been checked gives it back unchanged.
pub proof fn lemma_check_message_idempotent(buf: Seq<u8>)
    requires
        spec_check_message(buf) is Ok,
    ensures
        spec_check_message(spec_check_message(buf)->Ok_0) == spec_check_message(buf),
{
    let m = spec_check_message(buf)->Ok_0;
    assert(m.len() == 6 + header_payload_size(buf));
    assert(m[0] == buf[0] && m[1] == buf[1] && m[2] == buf[2] && m[3] == buf[3]);
    assert(header_payload_size(m) == header_payload_size(buf));
    assert(m.subrange(0, 6 + header_payload_size(m) as int) =~= m);
}

/// A checked message keeps the header of the chunk it came from and is as long
/// as its header announces: six bytes of header plus the payload.
pub proof fn lemma_checked_message_is_framed(buf: Seq<u8>)
    requires
        spec_check_message(buf) is Ok,
    ensures
        ({
            let m = spec_check_message(buf)->Ok_0;
            &&& m.len() == 6 + header_payload_size(m)
            &&& m.len() >= 6
            &&& m == buf.subrange(0, m.len() as int)
        }),
{
    let m = spec_check_message(buf)->Ok_0;
    assert(m[0] == buf[0] && m[1] == buf[1] && m[2] == buf[2] && m[3] == buf[3]);
}

/// A delayed message leaves when `action` milliseconds have passed since it was
/// read, or at once when that time is already over; `0` leaves at once and
/// `u32::MAX` never leaves.
pub proof fn lemma_delivery_deadline(action: u32, elapsed_ms: u128)
    ensures
        action == u32::MAX <==> spec_delivery(action, elapsed_ms) is Drop,
        action == 0 ==> spec_delivery(action, elapsed_ms) == (Delivery::Send { delay_ms: 0 }),
        action != 0 && action != u32::MAX ==> (spec_delivery(action, elapsed_ms) matches Delivery::Send { delay_ms }
            && elapsed_ms + delay_ms == if elapsed_ms < action as u128 { action as int } else { elapsed_ms as int }),
{
}

/// A chunk whose first byte has none of its six high bits set and that holds
/// at least the six header bytes and the payload its first four bytes announce
/// (big endian) is a message: the first six-plus-payload bytes; whatever follows
/// is cut off.
pub proof fn lemma_long_enough_chunk_is_message(b: Seq<u8>)
    requires
        b.len() >= 4,
        b[0] & 0xFC == 0,
        b.len() >= 6 + (b[0] as int) * 16777216 + (b[1] as int) * 65536 + (b[2] as int) * 256 + (b[3] as int),
    ensures
        spec_check_message(b) == Ok::<Seq<u8>, MessageError>(
            b.subrange(0, 6 + (b[0] as int) * 16777216 + (b[1] as int) * 65536 + (b[2] as int) * 256 + (b[3] as int)),
        ),
{
    let b0 = b[0];
    assert(b0 & 0xFC == 0 ==> b0 & 0x80 == 0) by (bit_vector);
}

/// A chunk is refused exactly when it is empty, when its first byte has one of
/// its six high bits set, or when it holds fewer than six bytes plus the
/// announced payload.
pub proof fn lemma_message_refused_iff(b: Seq<u8>)
    ensures
        spec_check_message(b) is Err <==> (b.len() == 0 || b[0] & 0xFC != 0 || b.len() < 4
            || b.len() < 6 + (b[0] as int) * 16777216 + (b[1] as int) * 65536 + (b[2] as int) * 256 + (b[3] as int)),
{
    if b.len() > 0 {
        let b0 = b[0];
        assert(b0 & 0x80 != 0 ==> b0 & 0xFC != 0) by (bit_vector);
    }
}

/// Bytes after a message do not change it: appending to a chunk that holds a
/// message gives the same message.
pub proof fn lemma_trailing_bytes_ignored(b: Seq<u8>, extra: Seq<u8>)
    requires
        spec_check_message(b) is Ok,
    ensures
        spec_check_message(b + extra) == spec_check_message(b),
{
    let c = b + extra;
    assert(c[0] == b[0] && c[1] == b[1] && c[2] == b[2] && c[3] == b[3]);
    assert(header_payload_size(c) == header_payload_size(b));
    assert(c.subrange(0, 6 + header_payload_size(c) as int) =~= b.subrange(0, 6 + header_payload_size(b) as int));
}

} // verus!
