//! What discovery mechanisms report about peers: peer records, events and
//! errors.
use vstd::prelude::*;
use crate::discovery::utils::SocketEndpoint;

verus! {

/// Connection status of a peer.
#[derive(Debug, Clone, Copy, PartialEq, Eq, Structural)]
pub enum ConnectionStatus {
    /// Not connected.
    Disconnected,
    /// Connecting.
    Connecting,
    /// Connected.
    Connected,
    /// The connection failed.
    Failed,
}

impl Default for ConnectionStatus {
    fn default() -> (r: Self)
        ensures
            r == ConnectionStatus::Disconnected,
    {
        ConnectionStatus::Disconnected
    }
}

/// Information about a discovered peer.
#[derive(Debug, Clone, PartialEq, Eq)]
pub struct PeerInfo {
    /// Identifier of the peer.
    pub id: Vec<u8>,
    /// Network addresses of the peer.
    pub addresses: Vec<SocketEndpoint>,
    /// Protocols the peer speaks.
    pub protocols: Vec<String>,
    /// Metadata about the peer.
    pub metadata: Vec<(String, Vec<u8>)>,
    /// When the peer was first discovered (microseconds since the Unix
    /// epoch).
    pub first_seen: Option<u64>,
    /// When the peer was last seen (microseconds since the Unix epoch).
    pub last_seen: Option<u64>,
    /// Connection status of the peer.
    pub connection_status: ConnectionStatus,
}

/// A peer record as values.
pub struct PeerView {
    pub id: Seq<u8>,
    pub addresses: Seq<SocketEndpoint>,
    pub protocols: Seq<Seq<char>>,
    pub metadata: Seq<(Seq<char>, Seq<u8>)>,
    pub first_seen: Option<u64>,
    pub last_seen: Option<u64>,
    pub connection_status: ConnectionStatus,
}

/// The texts of some strings.
pub open spec fn text_views(v: Seq<String>) -> Seq<Seq<char>> {
    v.map_values(|s: String| s@)
}

/// The metadata entries as values.
pub open spec fn meta_views(v: Seq<(String, Vec<u8>)>) -> Seq<(Seq<char>, Seq<u8>)> {
    v.map_values(|kv: (String, Vec<u8>)| (kv.0@, kv.1@))
}

impl View for PeerInfo {
    type V = PeerView;

    open spec fn view(&self) -> PeerView {
        PeerView {
            id: self.id@,
            addresses: self.addresses@,
            protocols: text_views(self.protocols@),
            metadata: meta_views(self.metadata@),
            first_seen: self.first_seen,
            last_seen: self.last_seen,
            connection_status: self.connection_status,
        }
    }
}

/// A copy of some bytes.
fn copy_bytes(b: &Vec<u8>) -> (r: Vec<u8>)
    ensures
        r@ == b@,
{
    let r = crate::bytes_be::copy_range(b.as_slice(), 0, b.len());
    assert(r@ =~= b@);
    r
}

impl Default for PeerInfo {
    fn default() -> (r: Self)
        ensures
            r@.id.len() == 0,
            r@.addresses.len() == 0,
            r@.protocols.len() == 0,
            r@.metadata.len() == 0,
            r.first_seen is None,
            r.last_seen is None,
            r.connection_status == ConnectionStatus::Disconnected,
    {
        PeerInfo {
            id: Vec::new(),
            addresses: Vec::new(),
            protocols: Vec::new(),
            metadata: Vec::new(),
            first_seen: None,
            last_seen: None,
            connection_status: ConnectionStatus::Disconnected,
        }
    }
}

impl PeerInfo {
    /// A copy of the record.
    pub fn duplicate(&self) -> (r: Self)
        ensures
            r@ == self@,
    {
        let mut addresses: Vec<SocketEndpoint> = Vec::new();
        let mut i: usize = 0;
        while i < self.addresses.len()
            invariant
                i <= self.addresses@.len(),
                addresses@ == self.addresses@.subrange(0, i as int),
            decreases self.addresses@.len() - i,
        {
            addresses.push(self.addresses[i]);
            i = i + 1;
            assert(addresses@ =~= self.addresses@.subrange(0, i as int));
        }
        assert(addresses@ =~= self.addresses@);
        let mut protocols: Vec<String> = Vec::new();
        let mut j: usize = 0;
        while j < self.protocols.len()
            invariant
                j <= self.protocols@.len(),
                text_views(protocols@) == text_views(self.protocols@).subrange(0, j as int),
            decreases self.protocols@.len() - j,
        {
            let ghost before = text_views(protocols@);
            let p = self.protocols[j].clone();
            protocols.push(p);
            assert(text_views(protocols@) =~= before.push(p@));
            j = j + 1;
            assert(text_views(protocols@) =~= text_views(self.protocols@).subrange(0, j as int));
        }
        assert(text_views(protocols@) =~= text_views(self.protocols@));
        let mut metadata: Vec<(String, Vec<u8>)> = Vec::new();
        let mut k: usize = 0;
        while k < self.metadata.len()
            invariant
                k <= self.metadata@.len(),
                meta_views(metadata@) == meta_views(self.metadata@).subrange(0, k as int),
            decreases self.metadata@.len() - k,
        {
            let ghost before = meta_views(metadata@);
            let kv = (self.metadata[k].0.clone(), copy_bytes(&self.metadata[k].1));
            metadata.push(kv);
            assert(meta_views(metadata@) =~= before.push((kv.0@, kv.1@)));
            k = k + 1;
            assert(meta_views(metadata@) =~= meta_views(self.metadata@).subrange(0, k as int));
        }
        assert(meta_views(metadata@) =~= meta_views(self.metadata@));
        PeerInfo {
            id: copy_bytes(&self.id),
            addresses,
            protocols,
            metadata,
            first_seen: self.first_seen,
            last_seen: self.last_seen,
            connection_status: self.connection_status,
        }
    }
}

/// Events emitted by discovery mechanisms.
#[derive(Debug)]
pub enum DiscoveryEvent {
    /// A new peer was discovered.
    PeerDiscovered(PeerInfo),
    /// A peer discovered before was updated.
    PeerUpdated(PeerInfo),
    /// A peer discovered before is no longer available.
    PeerExpired(Vec<u8>),
    /// The connection status of a peer changed.
    PeerConnectionStatusChanged {
        /// The peer.
        peer_id: Vec<u8>,
        /// Its new status.
        status: ConnectionStatus,
        /// What went wrong, when the status is `Failed`.
        error: Option<String>,
    },
    /// The discovery service started.
    ServiceStarted,
    /// The discovery service stopped.
    ServiceStopped,
    /// An error occurred during discovery.
    Error(String),
}

/// Errors of discovery.
#[derive(Debug)]
pub enum DiscoveryError {
    /// Reaching the bootstrap nodes failed.
    BootstrapError(String),
    /// The distributed hash table failed.
    DhtError(String),
    /// Multicast DNS failed.
    MdnsError(String),
    /// Input or output failed.
    IoError(String),
    /// A channel failed.
    ChannelError(String),
    /// The configuration is wrong.
    ConfigError(String),
    /// A task failed.
    TaskError(String),
    /// The service is already running.
    AlreadyRunning,
    /// The service is not running.
    NotRunning,
    /// An operation timed out.
    Timeout,
    /// A peer identifier is not valid.
    InvalidPeerId(String),
    /// A multiaddress is not valid.
    InvalidMultiaddr(String),
    /// Another error.
    Other(String),
}

/// The message of a discovery error.
pub open spec fn discovery_error_text(e: DiscoveryError) -> Seq<char> {
    match e {
        DiscoveryError::BootstrapError(m) => "Bootstrap error: "@ + m@,
        DiscoveryError::DhtError(m) => "DHT error: "@ + m@,
        DiscoveryError::MdnsError(m) => "mDNS error: "@ + m@,
        DiscoveryError::IoError(m) => "I/O error: "@ + m@,
        DiscoveryError::ChannelError(m) => "Channel error: "@ + m@,
        DiscoveryError::ConfigError(m) => "Configuration error: "@ + m@,
        DiscoveryError::TaskError(m) => "Task error: "@ + m@,
        DiscoveryError::AlreadyRunning => "Service is already running"@,
        DiscoveryError::NotRunning => "Service is not running"@,
        DiscoveryError::Timeout => "Operation timed out"@,
        DiscoveryError::InvalidPeerId(m) => "Invalid peer ID: "@ + m@,
        DiscoveryError::InvalidMultiaddr(m) => "Invalid multiaddr: "@ + m@,
        DiscoveryError::Other(m) => "Error: "@ + m@,
    }
}

/// A prefix followed by a message.
fn prefixed(prefix: &str, m: &String) -> (r: String)
    ensures
        r@ == prefix@ + m@,
{
    let mut s = String::from_str(prefix);
    s.append(m.as_str());
    s
}

impl DiscoveryError {
    /// The message of the error.
    pub fn to_string(&self) -> (r: String)
        ensures
            r@ == discovery_error_text(*self),
    {
        match self {
            DiscoveryError::BootstrapError(m) => prefixed("Bootstrap error: ", m),
            DiscoveryError::DhtError(m) => prefixed("DHT error: ", m),
            DiscoveryError::MdnsError(m) => prefixed("mDNS error: ", m),
            DiscoveryError::IoError(m) => prefixed("I/O error: ", m),
            DiscoveryError::ChannelError(m) => prefixed("Channel error: ", m),
            DiscoveryError::ConfigError(m) => prefixed("Configuration error: ", m),
            DiscoveryError::TaskError(m) => prefixed("Task error: ", m),
            DiscoveryError::AlreadyRunning => String::from_str("Service is already running"),
            DiscoveryError::NotRunning => String::from_str("Service is not running"),
            DiscoveryError::Timeout => String::from_str("Operation timed out"),
            DiscoveryError::InvalidPeerId(m) => prefixed("Invalid peer ID: ", m),
            DiscoveryError::InvalidMultiaddr(m) => prefixed("Invalid multiaddr: ", m),
            DiscoveryError::Other(m) => prefixed("Error: ", m),
        }
    }
}

} // verus!
