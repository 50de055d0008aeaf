//! A second node model: the read side also bounds the message size and stops
//! reading on a short buffer, and the write side keeps the peer ports and the
//! write halves in two parallel lists.
use vstd::prelude::*;
use crate::connection_handler::{header_payload_size, is_compressed, has_unknown_header, lemma_known_header_small, payload_size};
use crate::text::prefix_vec;

verus! {

/// A message on its way to the peer listening on `port_to`.
pub struct Message {
    pub data: Vec<u8>,
    pub port_to: u16,
}

impl Message {
    pub fn new(data: Vec<u8>, port_to: u16) -> (m: Self)
        ensures
            m.data@ == data@,
            m.port_to == port_to,
    {
        Self { data, port_to }
    }
}

/// A node with the peers it is connected to through the interceptor.
pub struct Node<W, R> {
    pub port: u16,
    pub peers: Vec<Peer<W, R>>,
}

/// A peer as seen from one node.
pub struct Peer<W, R> {
    pub port: u16,
    pub write_half: W,
    pub read_half: R,
}

/// What one reading task needs: the half to read from, the node it reads from
/// and the peer the messages are meant for.
pub struct ReadTask<R> {
    pub read_half: R,
    pub peer_from_port: u16,
    pub peer_to_port: u16,
}

impl<W, R> Node<W, R> {
    /// A node listening on `port`, with no peers yet.
    pub fn new(port: u16) -> (n: Self)
        ensures
            n.port == port,
            n.peers@.len() == 0,
    {
        Self { port, peers: Vec::new() }
    }

    /// Adds `peer` after the peers already known.
    pub fn add_peer(&mut self, peer: Peer<W, R>)
        ensures
            final(self).port == old(self).port,
            final(self).peers@ == old(self).peers@.push(peer),
    {
        self.peers.push(peer);
    }

    /// Splits the node into one reading task per peer, the list of peer ports
    /// and the list of write halves, all three in the order the peers were added.
    pub fn start(self) -> (r: (Vec<ReadTask<R>>, Vec<u16>, Vec<W>))
        ensures
            r.0@.len() == self.peers@.len(),
            r.1@.len() == self.peers@.len(),
            r.2@.len() == self.peers@.len(),
            forall|k: int| 0 <= k < self.peers@.len() ==> {
                &&& (#[trigger] r.0@[k]).read_half == self.peers@[k].read_half
                &&& r.0@[k].peer_from_port == self.port
                &&& r.0@[k].peer_to_port == self.peers@[k].port
                &&& r.1@[k] == self.peers@[k].port
                &&& r.2@[k] == self.peers@[k].write_half
            },
    {
        let ghost all = self.peers@;
        let port = self.port;
        let mut rest = self.peers;
        let mut reads: Vec<ReadTask<R>> = Vec::new();
        let mut ports: Vec<u16> = Vec::new();
        let mut halves: Vec<W> = Vec::new();
        while rest.len() > 0
            invariant
                reads@.len() == ports@.len(),
                reads@.len() == halves@.len(),
                reads@.len() + rest@.len() == all.len(),
                rest@ == all.subrange(reads@.len() as int, all.len() as int),
                forall|k: int| 0 <= k < reads@.len() ==> {
                    &&& (#[trigger] reads@[k]).read_half == all[k].read_half
                    &&& reads@[k].peer_from_port == port
                    &&& reads@[k].peer_to_port == all[k].port
                    &&& ports@[k] == all[k].port
                    &&& halves@[k] == all[k].write_half
                },
            decreases rest@.len(),
        {
            let ghost k = reads@.len() as int;
            let peer = rest.remove(0);
            assert(peer == all[k]);
            reads.push(ReadTask { read_half: peer.read_half, peer_from_port: port, peer_to_port: peer.port });
            ports.push(peer.port);
            halves.push(peer.write_half);
            assert(rest@ =~= all.subrange(reads@.len() as int, all.len() as int));
        }
        (reads, ports, halves)
    }
}

impl<W, R> Peer<W, R> {
    /// Makes a new peer from a node's perspective.
    pub fn new(port: u16, write_half: W, read_half: R) -> (p: Self)
        ensures
            p.port == port,
            p.write_half == write_half,
            p.read_half == read_half,
    {
        Self { port, write_half, read_half }
    }
}

/// Why a chunk read from a node stops the reading task.
#[derive(Debug, Clone, Copy, PartialEq, Eq, Structural)]
pub enum ReadFailure {
    /// Nothing was read: the stream is closed.
    Closed,
    /// The first byte marks a compressed message.
    Compressed(u8),
    /// The first byte carries an unknown version header.
    UnknownVersionHeader(u8),
    /// Fewer than the four bytes of the size field were read.
    HeaderIncomplete,
    /// The announced payload is larger than 64 MiB.
    TooLarge(u32),
}

/// What becomes of a chunk read from a node that does not fail.
#[derive(Debug, Clone, PartialEq, Eq)]
pub enum ReadOutcome {
    /// The chunk holds less than the header announces: reading stops.
    TooShort,
    /// The message to hand to the controller.
    Forward(Vec<u8>),
}

/// The view of a read outcome: the forwarded message, or `None` when reading stops.
pub open spec fn outcome_view(o: ReadOutcome) -> Option<Seq<u8>> {
    match o {
        ReadOutcome::Forward(m) => Some(m@),
        ReadOutcome::TooShort => None,
    }
}

/// The failure a chunk read from a node leads to, if any.
pub open spec fn spec_read_failure(b: Seq<u8>) -> Option<ReadFailure> {
    if b.len() == 0 {
        Some(ReadFailure::Closed)
    } else if is_compressed(b[0]) {
        Some(ReadFailure::Compressed(b[0]))
    } else if has_unknown_header(b[0]) {
        Some(ReadFailure::UnknownVersionHeader(b[0]))
    } else if b.len() < 4 {
        Some(ReadFailure::HeaderIncomplete)
    } else if header_payload_size(b) > 67108864 {
        Some(ReadFailure::TooLarge(header_payload_size(b) as u32))
    } else {
        None
    }
}

/// What a chunk that does not fail leads to: the message it holds, or `None`
/// when it holds less than its header announces.
pub open spec fn spec_read_outcome(b: Seq<u8>) -> Option<Seq<u8>> {
    if b.len() < 6 + header_payload_size(b) {
        None
    } else {
        Some(b.subrange(0, 6 + header_payload_size(b) as int))
    }
}

/// Why a chunk read from a node stops the reading task, if it does.
pub fn read_failure(buf: &[u8]) -> (r: Option<ReadFailure>)
    ensures
        r == spec_read_failure(buf@),
{
    if buf.len() == 0 {
        return Some(ReadFailure::Closed);
    }
    let b0 = buf[0];
    if b0 & 0x80 != 0 {
        return Some(ReadFailure::Compressed(b0));
    }
    if b0 & 0xFC != 0 {
        return Some(ReadFailure::UnknownVersionHeader(b0));
    }
    if buf.len() < 4 {
        return Some(ReadFailure::HeaderIncomplete);
    }
    let size = payload_size(buf);
    if size > 67108864 {
        return Some(ReadFailure::TooLarge(size));
    }
    None
}

/// Classifies a chunk read from a node: the message to forward, or the end of
/// reading when the chunk is shorter than announced. Chunks that fail (see
/// `read_failure`) are left out.
pub fn classify_read(buf: &[u8]) -> (o: ReadOutcome)
    requires
        spec_read_failure(buf@) is None,
    ensures
        outcome_view(o) == spec_read_outcome(buf@),
{
    proof { lemma_known_header_small(buf@); }
    let size = payload_size(buf) as usize;
    if buf.len() < 6 || buf.len() - 6 < size {
        return ReadOutcome::TooShort;
    }
    ReadOutcome::Forward(prefix_vec(buf, size + 6))
}

/// Whether `port` is among the peer ports.
pub fn has_port(peer_ports: &Vec<u16>, port: u16) -> (r: bool)
    ensures
        r == peer_ports@.contains(port),
{
    let mut k: usize = 0;
    while k < peer_ports.len()
        invariant
            k <= peer_ports@.len(),
            forall|j: int| 0 <= j < k ==> peer_ports@[j] != port,
        decreases peer_ports@.len() - k,
    {
        if peer_ports[k] == port {
            return true;
        }
        k += 1;
    }
    false
}

/// The write half to use for a message to `port_to`: the port found among the
/// peer ports, whose value is used as the position in the list of write
/// halves. A port that is not among the peer ports is left out.
pub fn write_target(peer_ports: &Vec<u16>, port_to: u16) -> (k: usize)
    requires
        peer_ports@.contains(port_to),
    ensures
        k == port_to,
{
    port_to as usize
}

/// A chunk that holds at least six header bytes plus the payload its first
/// four bytes announce (big endian) is forwarded as its first six-plus-payload
/// bytes; a shorter one stops the reading.
pub proof fn lemma_read_forwards_full_messages(b: Seq<u8>)
    requires
        b.len() >= 4,
    ensures
        b.len() >= 6 + (b[0] as int) * 16777216 + (b[1] as int) * 65536 + (b[2] as int) * 256 + (b[3] as int)
            ==> spec_read_outcome(b) == Some(
            b.subrange(0, 6 + (b[0] as int) * 16777216 + (b[1] as int) * 65536 + (b[2] as int) * 256 + (b[3] as int)),
        ),
        b.len() < 6 + (b[0] as int) * 16777216 + (b[1] as int) * 65536 + (b[2] as int) * 256 + (b[3] as int)
            ==> spec_read_outcome(b) is None,
{
}

} // verus!
