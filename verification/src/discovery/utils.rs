//! Conversions between peer identifiers and bytes, and between
//! multiaddresses and socket addresses.
use vstd::prelude::*;
use libp2p::multiaddr::Protocol;
use libp2p::{Multiaddr, PeerId};

verus! {

/// Why converting a peer identifier failed.
#[derive(Debug, Clone)]
pub enum DiscoveryUtilsError {
    /// The bytes are not a peer identifier.
    PeerIdConversion(String),
    /// The identifier is empty.
    EmptyPeerId,
    /// The address is not a valid multiaddress.
    InvalidMultiaddr(String),
}

impl DiscoveryUtilsError {
    /// The message of the error.
    pub fn to_string(&self) -> (r: String)
        ensures
            r@ == match self {
                DiscoveryUtilsError::PeerIdConversion(m) => "Failed to convert bytes to PeerId: "@ + m@,
                DiscoveryUtilsError::EmptyPeerId => "Empty peer ID"@,
                DiscoveryUtilsError::InvalidMultiaddr(m) => "Invalid multiaddr: "@ + m@,
            },
    {
        match self {
            DiscoveryUtilsError::PeerIdConversion(m) => {
                let mut s = String::from_str("Failed to convert bytes to PeerId: ");
                s.append(m.as_str());
                s
            },
            DiscoveryUtilsError::EmptyPeerId => String::from_str("Empty peer ID"),
            DiscoveryUtilsError::InvalidMultiaddr(m) => {
                let mut s = String::from_str("Invalid multiaddr: ");
                s.append(m.as_str());
                s
            },
        }
    }
}

/// A multiaddress, as libp2p writes network addresses.
#[verifier::external_type_specification]
#[verifier::external_body]
pub struct ExMultiaddr(Multiaddr);

/// A libp2p peer identifier.
#[verifier::external_type_specification]
#[verifier::external_body]
pub struct ExPeerId(PeerId);

/// One protocol of a multiaddress, as far as socket addresses go.
#[derive(Debug, Clone, Copy, PartialEq, Eq)]
pub enum AddrPart {
    Ip4([u8; 4]),
    Ip6([u8; 16]),
    Tcp(u16),
    Udp(u16),
    /// Any other protocol.
    Other,
}

/// An IP address, by its octets.
#[derive(Debug, Clone, Copy, PartialEq, Eq)]
pub enum IpAddress {
    V4([u8; 4]),
    V6([u8; 16]),
}

/// A socket address: an IP address and a port.
#[derive(Debug, Clone, Copy, PartialEq, Eq)]
pub struct SocketEndpoint {
    pub ip: IpAddress,
    pub port: u16,
}

/// The protocols a multiaddress holds, in order.
pub uninterp spec fn addr_parts(m: Multiaddr) -> Seq<AddrPart>;

/// Calls `Multiaddr::from` on an `Ip4` protocol: the address holds that
/// one protocol.
#[verifier::external_body]
pub(crate) fn multiaddr_from_ip4(octets: [u8; 4]) -> (r: Multiaddr)
    ensures
        addr_parts(r) == seq![AddrPart::Ip4(octets)],
{
    Multiaddr::from(Protocol::Ip4(octets.into()))
}

/// Calls `Multiaddr::from` on an `Ip6` protocol: the address holds that
/// one protocol.
#[verifier::external_body]
pub(crate) fn multiaddr_from_ip6(octets: [u8; 16]) -> (r: Multiaddr)
    ensures
        addr_parts(r) == seq![AddrPart::Ip6(octets)],
{
    Multiaddr::from(Protocol::Ip6(octets.into()))
}

/// Calls `Multiaddr::push` with a `Tcp` protocol: it comes last.
#[verifier::external_body]
pub(crate) fn multiaddr_push_tcp(m: &mut Multiaddr, port: u16)
    ensures
        addr_parts(*final(m)) == addr_parts(*old(m)).push(AddrPart::Tcp(port)),
{
    m.push(Protocol::Tcp(port));
}

/// Walks `Multiaddr::iter`: the protocols in order, each kept when it is an
/// IP address, a TCP or a UDP port, else `Other`.
#[verifier::external_body]
pub(crate) fn multiaddr_protocols(m: &Multiaddr) -> (r: Vec<AddrPart>)
    ensures
        r@ == addr_parts(*m),
{
    let mut parts = Vec::new();
    for p in m.iter() {
        parts.push(match p {
            Protocol::Ip4(a) => AddrPart::Ip4(a.octets()),
            Protocol::Ip6(a) => AddrPart::Ip6(a.octets()),
            Protocol::Tcp(port) => AddrPart::Tcp(port),
            Protocol::Udp(port) => AddrPart::Udp(port),
            _ => AddrPart::Other,
        });
    }
    parts
}

/// The IP address and port read from protocols `0..n`: the last IP
/// address, and the last TCP or UDP port (0 when there is none).
pub open spec fn scan_parts(parts: Seq<AddrPart>, n: int) -> (Option<IpAddress>, u16)
    decreases n,
{
    if n <= 0 {
        (None, 0)
    } else {
        let (ip, port) = scan_parts(parts, n - 1);
        match parts[n - 1] {
            AddrPart::Ip4(o) => (Some(IpAddress::V4(o)), port),
            AddrPart::Ip6(o) => (Some(IpAddress::V6(o)), port),
            AddrPart::Tcp(p) => (ip, p),
            AddrPart::Udp(p) => (ip, p),
            AddrPart::Other => (ip, port),
        }
    }
}

/// The socket address of some protocols: none without an IP address.
pub open spec fn socket_of(parts: Seq<AddrPart>) -> Option<SocketEndpoint> {
    let (ip, port) = scan_parts(parts, parts.len() as int);
    match ip {
        Some(a) => Some(SocketEndpoint { ip: a, port }),
        None => None,
    }
}

/// The protocols of a socket address: its IP address, then its port over
/// TCP unless the port is 0.
pub open spec fn socket_parts(s: SocketEndpoint) -> Seq<AddrPart> {
    let ip = match s.ip {
        IpAddress::V4(o) => AddrPart::Ip4(o),
        IpAddress::V6(o) => AddrPart::Ip6(o),
    };
    if s.port != 0 {
        seq![ip, AddrPart::Tcp(s.port)]
    } else {
        seq![ip]
    }
}

/// The socket address a multiaddress names: its last IP address with its
/// last TCP or UDP port (0 when it has none); `None` without an IP address.
pub fn multiaddr_to_socket_addr(addr: &Multiaddr) -> (r: Option<SocketEndpoint>)
    ensures
        r == socket_of(addr_parts(*addr)),
{
    let parts = multiaddr_protocols(addr);
    let mut ip: Option<IpAddress> = None;
    let mut port: u16 = 0;
    let mut i: usize = 0;
    while i < parts.len()
        invariant
            i <= parts@.len(),
            parts@ == addr_parts(*addr),
            (ip, port) == scan_parts(parts@, i as int),
        decreases parts@.len() - i,
    {
        match parts[i] {
            AddrPart::Ip4(o) => {
                ip = Some(IpAddress::V4(o));
            },
            AddrPart::Ip6(o) => {
                ip = Some(IpAddress::V6(o));
            },
            AddrPart::Tcp(p) => {
                port = p;
            },
            AddrPart::Udp(p) => {
                port = p;
            },
            AddrPart::Other => {},
        }
        i = i + 1;
    }
    match ip {
        Some(a) => Some(SocketEndpoint { ip: a, port }),
        None => None,
    }
}

/// The multiaddress of a socket address: its IP address, then its port
/// over TCP unless the port is 0.
pub fn socket_addr_to_multiaddr(addr: &SocketEndpoint) -> (r: Multiaddr)
    ensures
        addr_parts(r) == socket_parts(*addr),
{
    let mut m = match addr.ip {
        IpAddress::V4(o) => multiaddr_from_ip4(o),
        IpAddress::V6(o) => multiaddr_from_ip6(o),
    };
    if addr.port != 0 {
        multiaddr_push_tcp(&mut m, addr.port);
    }
    proof {
        assert(addr_parts(m) =~= socket_parts(*addr));
    }
    m
}

/// A socket address written as a multiaddress reads back as itself.
pub proof fn lemma_socket_multiaddr_roundtrip(s: SocketEndpoint)
    ensures
        socket_of(socket_parts(s)) == Some(s),
{
    reveal_with_fuel(scan_parts, 3);
}

/// Whether `PeerId::from_bytes` accepts some bytes: a multihash whose code
/// is SHA-256, or the identity code with a digest of at most 42 bytes.
pub uninterp spec fn peer_id_valid(bytes: Seq<u8>) -> bool;

/// What a peer identifier holds: the bytes of its multihash (code, digest
/// length, digest), as `PeerId::to_bytes` writes them.
pub uninterp spec fn peer_id_multihash(peer_id: PeerId) -> Seq<u8>;

/// Calls `PeerId::to_bytes`: the bytes of the identifier's multihash, which
/// `PeerId::from_bytes` accepts (every `PeerId` holds a multihash of an
/// accepted code) and which are never empty (a multihash starts with its
/// code and digest length).
#[verifier::external_body]
fn peer_id_bytes(peer_id: &PeerId) -> (r: Vec<u8>)
    ensures
        r@ == peer_id_multihash(*peer_id),
        peer_id_valid(r@),
        r@.len() > 0,
{
    peer_id.to_bytes()
}

/// Calls `PeerId::from_bytes`, the error given as its message: it succeeds
/// on exactly the bytes [`peer_id_valid`] names, which are never empty
/// (an empty slice is no multihash), and the identifier it gives holds
/// exactly those bytes (the multihash reader takes minimal varints only and
/// refuses bytes left over, so writing it back gives the same bytes).
#[verifier::external_body]
pub(crate) fn parse_peer_id(bytes: &[u8]) -> (r: Result<PeerId, String>)
    ensures
        r is Ok <==> peer_id_valid(bytes@),
        r matches Ok(p) ==> peer_id_multihash(p) == bytes@,
        r is Ok ==> bytes@.len() > 0,
{
    match PeerId::from_bytes(bytes) {
        Ok(p) => Ok(p),
        Err(e) => Err(e.to_string()),
    }
}

/// The bytes of a peer identifier: its multihash, never empty, and read
/// back as the same identifier by [`bytes_to_peer_id`].
pub fn peer_id_to_bytes(peer_id: &PeerId) -> (r: Vec<u8>)
    ensures
        r@ == peer_id_multihash(*peer_id),
        peer_id_valid(r@),
        r@.len() > 0,
{
    peer_id_bytes(peer_id)
}

/// The peer identifier written in some bytes: `EmptyPeerId` for no bytes,
/// a `PeerIdConversion` error with the parser's message when they are not
/// a peer identifier.
pub fn bytes_to_peer_id(bytes: &[u8]) -> (r: Result<PeerId, DiscoveryUtilsError>)
    ensures
        bytes@.len() == 0 <==> r matches Err(DiscoveryUtilsError::EmptyPeerId),
        r is Ok <==> bytes@.len() > 0 && peer_id_valid(bytes@),
        r matches Ok(p) ==> peer_id_multihash(p) == bytes@,
        r matches Err(e) ==> (e is EmptyPeerId || e is PeerIdConversion),
{
    if bytes.len() == 0 {
        return Err(DiscoveryUtilsError::EmptyPeerId);
    }
    match parse_peer_id(bytes) {
        Ok(p) => Ok(p),
        Err(m) => Err(DiscoveryUtilsError::PeerIdConversion(m)),
    }
}

} // verus!
