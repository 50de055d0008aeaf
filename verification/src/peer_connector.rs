//! How the interceptor sets up a connection half to a node: the upgrade request
//! that makes the node take the interceptor for one of its peers, and the check
//! of the node's answer.
use vstd::prelude::*;

use crate::text::{occurs_at_bytes, prefix_vec};

verus! {

/// The HTTP `Upgrade` request that a node receives from the interceptor, which
/// presents itself with the public key `key`. The session signature is a dummy:
/// the nodes run without its check.
pub open spec fn spec_upgrade_request(key: Seq<char>) -> Seq<char> {
    "GET / HTTP/1.1\r\nUpgrade: XRPL/2.2\r\nConnection: Upgrade\r\nConnect-As: Peer\r\nPublic-Key: "@
        + key + "\r\nSession-Signature: a\r\n\r\n"@
}

/// Connects the interceptor to nodes at one IP address.
#[derive(Clone)]
pub struct PeerConnector {
    pub ip_addr: String,
}

/// One connection half to open: the node's address and port, and the request
/// to send once the TLS session is up.
pub struct HalfPlan {
    pub ip_addr: String,
    pub port: u16,
    pub request: String,
}

impl PeerConnector {
    pub fn new(ip_addr: String) -> (c: Self)
        ensures
            c.ip_addr@ == ip_addr@,
    {
        Self { ip_addr }
    }

    /// The two halves of a connection between two peers. Each node is told that
    /// the other one is calling: the half to the first peer presents the second
    /// peer's key, and the other way round.
    pub fn connection_halves(&self, peer1_port: u16, peer2_port: u16, pub_key1: &str, pub_key2: &str) -> (r: (HalfPlan, HalfPlan))
        ensures
            r.0.ip_addr@ == self.ip_addr@,
            r.0.port == peer1_port,
            r.0.request@ == spec_upgrade_request(pub_key2@),
            r.1.ip_addr@ == self.ip_addr@,
            r.1.port == peer2_port,
            r.1.request@ == spec_upgrade_request(pub_key1@),
    {
        let half1 = HalfPlan {
            ip_addr: self.ip_addr.clone(),
            port: peer1_port,
            request: Self::format_upgrade_request_content(pub_key2),
        };
        let half2 = HalfPlan {
            ip_addr: self.ip_addr.clone(),
            port: peer2_port,
            request: Self::format_upgrade_request_content(pub_key1),
        };
        (half1, half2)
    }

    /// Creates the request that upgrades the connection between a node and the
    /// interceptor, which presents itself with `pub_key_peer_to`.
    pub fn format_upgrade_request_content(pub_key_peer_to: &str) -> (s: String)
        ensures
            s@ == spec_upgrade_request(pub_key_peer_to@),
    {
        let head = "GET / HTTP/1.1\r\nUpgrade: XRPL/2.2\r\nConnection: Upgrade\r\nConnect-As: Peer\r\nPublic-Key: ";
        let tail = "\r\nSession-Signature: a\r\n\r\n";
        let mut s = String::from_str(head);
        s.append(pub_key_peer_to);
        s.append(tail);
        s
    }
}

/// The end of an HTTP head.
pub open spec fn head_terminator() -> Seq<u8> {
    seq![13u8, 10u8, 13u8, 10u8]
}

/// The head terminator starts at position `i` of `b`.
pub open spec fn terminator_at(b: Seq<u8>, i: int) -> bool {
    0 <= i && i + 4 <= b.len() && b.subrange(i, i + 4) == head_terminator()
}

/// The first position in `b` where the head terminator starts, if any.
pub open spec fn spec_head_end(b: Seq<u8>) -> Option<int> {
    if exists|i: int| #[trigger] terminator_at(b, i) {
        Some(choose|i: int| #[trigger] terminator_at(b, i) && forall|j: int| 0 <= j < i ==> !#[trigger] terminator_at(b, j))
    } else {
        None
    }
}

/// The position where the first `\r\n\r\n` of `buf` starts.
pub fn find_head_end(buf: &[u8]) -> (r: Option<usize>)
    ensures
        match r {
            Some(n) => terminator_at(buf@, n as int) && forall|j: int| 0 <= j < n ==> !#[trigger] terminator_at(buf@, j),
            None => forall|j: int| !#[trigger] terminator_at(buf@, j),
        },
{
    let term: [u8; 4] = [13u8, 10u8, 13u8, 10u8];
    assert(term@ =~= head_terminator());
    let n = buf.len();
    let mut i: usize = 0;
    while i < n
        invariant
            n == buf@.len(),
            i <= n,
            term@ == head_terminator(),
            forall|j: int| 0 <= j < i ==> !#[trigger] terminator_at(buf@, j),
        decreases n - i,
    {
        if occurs_at_bytes(buf, term.as_slice(), i) {
            return Some(i);
        }
        i += 1;
    }
    assert forall|j: int| !#[trigger] terminator_at(buf@, j) by {
        if 0 <= j && j < i {
        }
    }
    None
}

/// What `httparse` makes of a response head with room for `max_headers`
/// headers: `None` when it refuses the bytes, `Some(None)` when the head is
/// incomplete, `Some(Some(code))` with the status code when it is complete.
pub uninterp spec fn http_response_head(head: Seq<u8>, max_headers: usize) -> Option<Option<u16>>;

/// Parses an HTTP response head with `httparse::Response::parse`. The result is
/// a function of the bytes and the header capacity alone; which heads are
/// accepted is not restated here.
#[verifier::external_body]
fn parse_response_head(head: &[u8], max_headers: usize) -> (r: Option<Option<u16>>)
    ensures
        r == http_response_head(head@, max_headers),
{
    let mut headers = vec![httparse::EMPTY_HEADER; max_headers];
    let mut resp = httparse::Response::new(&mut headers);
    match resp.parse(head) {
        Ok(httparse::Status::Complete(_)) => Some(resp.code),
        Ok(httparse::Status::Partial) => Some(None),
        Err(_) => None,
    }
}

/// The number of headers a handshake response may carry.
pub const MAX_RESPONSE_HEADERS: usize = 32;

/// Why a node's answer to the upgrade request is not a switch of protocols.
#[derive(Debug, Clone, Copy, PartialEq, Eq, Structural)]
pub enum HandshakeError {
    /// No `\r\n\r\n` separates the head from the body.
    NoHeadEnd,
    /// The head is not a valid HTTP response.
    ParseFailed,
    /// The head could not be parsed completely.
    Incomplete,
    /// The status is not 101; the body starts at `body_start`.
    UnexpectedStatus { code: u16, body_start: usize },
}

/// HTTP status 101: Switching Protocols.
pub const SWITCHING_PROTOCOLS: u16 = 101;

/// The verdict on a node's answer, given where its head ends and what the head
/// parser makes of the head: the position where the body starts, or the error.
pub open spec fn spec_handshake_verdict(head_end: Option<usize>, parsed: Option<Option<u16>>) -> Result<usize, HandshakeError> {
    match head_end {
        None => Err(HandshakeError::NoHeadEnd),
        Some(n) => match parsed {
            None => Err(HandshakeError::ParseFailed),
            Some(None) => Err(HandshakeError::Incomplete),
            Some(Some(code)) => if code != 101 {
                Err(HandshakeError::UnexpectedStatus { code, body_start: (n + 4) as usize })
            } else {
                Ok((n + 4) as usize)
            },
        },
    }
}

/// The verdict on a node's answer to the upgrade request.
pub open spec fn spec_check_upgrade_response(b: Seq<u8>) -> Result<usize, HandshakeError> {
    match spec_head_end(b) {
        None => Err(HandshakeError::NoHeadEnd),
        Some(n) => spec_handshake_verdict(Some(n as usize), http_response_head(b.subrange(0, n + 4), MAX_RESPONSE_HEADERS)),
    }
}

proof fn lemma_head_end_is_first(b: Seq<u8>, n: int)
    requires
        terminator_at(b, n),
        forall|j: int| 0 <= j < n ==> !#[trigger] terminator_at(b, j),
    ensures
        spec_head_end(b) == Some(n),
{
    let c = choose|i: int| #[trigger] terminator_at(b, i) && forall|j: int| 0 <= j < i ==> !#[trigger] terminator_at(b, j);
    assert(terminator_at(b, c) && forall|j: int| 0 <= j < c ==> !#[trigger] terminator_at(b, j));
    if c < n {
        assert(!terminator_at(b, c));
    }
    if n < c {
        assert(!terminator_at(b, n));
    }
}

/// Decides, from what the head parser made of the head, whether the answer
/// switches protocols.
pub fn handshake_verdict(head_end: Option<usize>, parsed: Option<Option<u16>>) -> (r: Result<usize, HandshakeError>)
    requires
        head_end matches Some(n) ==> n + 4 <= usize::MAX,
    ensures
        r == spec_handshake_verdict(head_end, parsed),
{
    match head_end {
        None => Err(HandshakeError::NoHeadEnd),
        Some(n) => match parsed {
            None => Err(HandshakeError::ParseFailed),
            Some(None) => Err(HandshakeError::Incomplete),
            Some(Some(code)) => {
                if code != SWITCHING_PROTOCOLS {
                    Err(HandshakeError::UnexpectedStatus { code, body_start: n + 4 })
                } else {
                    Ok(n + 4)
                }
            },
        },
    }
}

/// The verdict on a node's buffered answer to the upgrade request.
fn upgrade_verdict(buffered_response: &[u8]) -> (r: Result<usize, HandshakeError>)
    ensures
        r == spec_check_upgrade_response(buffered_response@),
{
    let head_end = find_head_end(buffered_response);
    match head_end {
        None => Err(HandshakeError::NoHeadEnd),
        Some(n) => {
            proof { lemma_head_end_is_first(buffered_response@, n as int); }
            let len = buffered_response.len();
            assert(n + 4 <= len);
            let head = prefix_vec(buffered_response, n + 4);
            let parsed = parse_response_head(head.as_slice(), MAX_RESPONSE_HEADERS);
            handshake_verdict(head_end, parsed)
        },
    }
}

/// Checks that a node's buffered answer is a `101 Switching Protocols`
/// response and returns where its body starts. Answers without a head end,
/// with a head that does not parse completely, or with another status are
/// left out; `upgrade_response_verdict` tells them apart.
pub fn check_upgrade_request_response(buffered_response: &[u8]) -> (body_start: usize)
    requires
        spec_check_upgrade_response(buffered_response@) is Ok,
    ensures
        spec_check_upgrade_response(buffered_response@) == Ok::<usize, HandshakeError>(body_start),
{
    match upgrade_verdict(buffered_response) {
        Ok(body_start) => body_start,
        Err(_) => 0,
    }
}

/// The verdict on a node's buffered answer: where the body starts when the
/// answer switches protocols, otherwise why it does not.
pub fn upgrade_response_verdict(buffered_response: &[u8]) -> (r: Result<usize, HandshakeError>)
    ensures
        r == spec_check_upgrade_response(buffered_response@),
{
    match upgrade_verdict(buffered_response) {
        Ok(_) => Ok(check_upgrade_request_response(buffered_response)),
        Err(e) => Err(e),
    }
}

/// The four bytes at `j` are `\r\n\r\n`.
pub open spec fn crlfcrlf_at(b: Seq<u8>, j: int) -> bool {
    0 <= j && j + 4 <= b.len() && b[j] == 13u8 && b[j + 1] == 10u8 && b[j + 2] == 13u8 && b[j + 3] == 10u8
}

proof fn lemma_terminator_bytes(b: Seq<u8>, j: int)
    ensures
        terminator_at(b, j) <==> crlfcrlf_at(b, j),
{
    if 0 <= j && j + 4 <= b.len() {
        let w = b.subrange(j, j + 4);
        assert(w[0] == b[j] && w[1] == b[j + 1] && w[2] == b[j + 2] && w[3] == b[j + 3]);
        if crlfcrlf_at(b, j) {
            assert(w =~= head_terminator());
        }
    }
}

/// The verdict on an answer whose first `\r\n\r\n` starts at `n`: the head
/// (up to and with that terminator) is parsed with room for 32 headers; a
/// complete head with status 101 switches protocols and the body starts right
/// after the head, a complete head with another status is refused with that
/// status, a head the parser refuses is a parse failure and an incomplete head
/// is refused as incomplete.
pub proof fn lemma_upgrade_verdict_at_head_end(b: Seq<u8>, n: int)
    requires
        b.len() <= usize::MAX,
        crlfcrlf_at(b, n),
        forall|j: int| 0 <= j < n ==> !#[trigger] crlfcrlf_at(b, j),
    ensures
        http_response_head(b.subrange(0, n + 4), 32) == Some(Some(101u16))
            ==> spec_check_upgrade_response(b) == Ok::<usize, HandshakeError>((n + 4) as usize),
        forall|code: u16| code != 101 && http_response_head(b.subrange(0, n + 4), 32) == Some(Some(code))
            ==> spec_check_upgrade_response(b) == Err::<usize, HandshakeError>(
            HandshakeError::UnexpectedStatus { code, body_start: (n + 4) as usize },
        ),
        http_response_head(b.subrange(0, n + 4), 32) is None
            ==> spec_check_upgrade_response(b) == Err::<usize, HandshakeError>(HandshakeError::ParseFailed),
        http_response_head(b.subrange(0, n + 4), 32) == Some(None::<u16>)
            ==> spec_check_upgrade_response(b) == Err::<usize, HandshakeError>(HandshakeError::Incomplete),
{
    lemma_terminator_bytes(b, n);
    assert forall|j: int| 0 <= j < n implies !#[trigger] terminator_at(b, j) by {
        lemma_terminator_bytes(b, j);
    }
    lemma_head_end_is_first(b, n);
    assert(MAX_RESPONSE_HEADERS == 32);
}

/// An answer without any `\r\n\r\n` is refused for want of a head end.
pub proof fn lemma_upgrade_needs_head_end(b: Seq<u8>)
    requires
        forall|j: int| !#[trigger] crlfcrlf_at(b, j),
    ensures
        spec_check_upgrade_response(b) == Err::<usize, HandshakeError>(HandshakeError::NoHeadEnd),
{
    assert forall|j: int| !#[trigger] terminator_at(b, j) by {
        lemma_terminator_bytes(b, j);
    }
}

} // verus!
