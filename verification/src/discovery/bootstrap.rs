//! Discovery through well-known bootstrap nodes: settings, the peers
//! learnt, and the decisions taken while connecting to a node.
use vstd::prelude::*;
use libp2p::Multiaddr;
use crate::discovery::interface::{ConnectionStatus, DiscoveryError, PeerInfo, PeerView};
use crate::discovery::peer_cache::{
    entry_peers, kept_entries, matches_criteria, peer_lookup, peer_views, recent_entries, recorded, seen_within,
    stale_ids, PeerCache, PeerEntry,
};
use crate::discovery::utils::{
    addr_parts, multiaddr_from_ip4, multiaddr_protocols, multiaddr_push_tcp, scan_parts, AddrPart, IpAddress,
    SocketEndpoint,
};

verus! {

/// Settings of discovery through bootstrap nodes.
#[derive(Debug, Clone)]
pub struct BootstrapDiscoveryConfig {
    /// Bootstrap nodes, as multiaddresses.
    pub bootstrap_nodes: Vec<Multiaddr>,
    /// Bootstrap nodes given as socket addresses (IPv4).
    pub bootstrap_nodes_legacy: Vec<SocketEndpoint>,
    /// Most events held before they are read.
    pub event_buffer_size: usize,
    /// How long a peer is kept without being seen (seconds).
    pub peer_expiration: u64,
    /// Name and version of the protocol.
    pub protocol_name: String,
    /// How long to wait for a connection (seconds).
    pub connect_timeout: u64,
    /// How often to contact the bootstrap nodes again (seconds).
    pub refresh_interval: u64,
}

impl Default for BootstrapDiscoveryConfig {
    fn default() -> (r: Self)
        ensures
            r.bootstrap_nodes@.len() == 0,
            r.bootstrap_nodes_legacy@.len() == 0,
            r.event_buffer_size == 32,
            r.peer_expiration == 3600,
            r.protocol_name@ == "OpenBroadcastNetwork/1.0.0"@,
            r.connect_timeout == 10,
            r.refresh_interval == 300,
    {
        BootstrapDiscoveryConfig {
            bootstrap_nodes: Vec::new(),
            bootstrap_nodes_legacy: Vec::new(),
            event_buffer_size: 32,
            peer_expiration: 3600,
            protocol_name: String::from_str("OpenBroadcastNetwork/1.0.0"),
            connect_timeout: 10,
            refresh_interval: 300,
        }
    }
}

/// All legacy nodes are IPv4 addresses: they are written as `/ip4/../tcp/..`
/// text, which does not parse for IPv6.
pub open spec fn legacy_ipv4(v: Seq<SocketEndpoint>) -> bool {
    forall|i: int| 0 <= i < v.len() ==> (#[trigger] v[i]).ip is V4
}

/// The protocols of a legacy node: its IPv4 address, then its port over
/// TCP.
pub open spec fn legacy_parts(s: SocketEndpoint) -> Seq<AddrPart> {
    match s.ip {
        IpAddress::V4(o) => seq![AddrPart::Ip4(o), AddrPart::Tcp(s.port)],
        IpAddress::V6(o) => seq![AddrPart::Ip6(o), AddrPart::Tcp(s.port)],
    }
}

/// The peer identifier made from a socket address: 0 and the four octets
/// for IPv4, 1 and the sixteen octets for IPv6, then the port, high byte
/// first.
pub open spec fn socket_peer_id(s: SocketEndpoint) -> Seq<u8> {
    let port = seq![(s.port / 256) as u8, (s.port % 256) as u8];
    match s.ip {
        IpAddress::V4(o) => seq![0u8] + o@ + port,
        IpAddress::V6(o) => seq![1u8] + o@ + port,
    }
}

/// The socket address of some protocols when they name an IP address and
/// a TCP port: the last of each.
pub open spec fn tcp_socket_of(parts: Seq<AddrPart>) -> Option<SocketEndpoint> {
    let ip = scan_parts(parts, parts.len() as int).0;
    let port = last_tcp(parts, parts.len() as int);
    match (ip, port) {
        (Some(a), Some(p)) => Some(SocketEndpoint { ip: a, port: p }),
        _ => None,
    }
}

/// The last TCP port among protocols `0..n`.
pub open spec fn last_tcp(parts: Seq<AddrPart>, n: int) -> Option<u16>
    decreases n,
{
    if n <= 0 {
        None
    } else {
        match parts[n - 1] {
            AddrPart::Tcp(p) => Some(p),
            _ => last_tcp(parts, n - 1),
        }
    }
}

/// The socket addresses of some multiaddresses that have one, in order.
pub open spec fn tcp_sockets(addrs: Seq<Multiaddr>, n: int) -> Seq<SocketEndpoint>
    decreases n,
{
    if n <= 0 {
        Seq::empty()
    } else {
        match tcp_socket_of(addr_parts(addrs[n - 1])) {
            Some(s) => tcp_sockets(addrs, n - 1).push(s),
            None => tcp_sockets(addrs, n - 1),
        }
    }
}

/// The socket address of a multiaddress when it names both an IP address
/// and a TCP port: the last of each.
pub fn extract_socket_addr_from_multiaddr(addr: &Multiaddr) -> (r: Option<SocketEndpoint>)
    ensures
        r == tcp_socket_of(addr_parts(*addr)),
{
    let parts = multiaddr_protocols(addr);
    let ghost ps = parts@;
    let mut ip: Option<IpAddress> = None;
    let mut port: Option<u16> = None;
    let mut i: usize = 0;
    while i < parts.len()
        invariant
            i <= parts@.len(),
            ps == parts@,
            ps == addr_parts(*addr),
            ip == scan_parts(ps, i as int).0,
            port == last_tcp(ps, i as int),
        decreases parts@.len() - i,
    {
        match parts[i] {
            AddrPart::Ip4(o) => {
                ip = Some(IpAddress::V4(o));
            },
            AddrPart::Ip6(o) => {
                ip = Some(IpAddress::V6(o));
            },
            AddrPart::Tcp(p) => {
                port = Some(p);
            },
            _ => {},
        }
        i = i + 1;
    }
    match (ip, port) {
        (Some(a), Some(p)) => Some(SocketEndpoint { ip: a, port: p }),
        _ => None,
    }
}

/// A peer identifier made from a socket address.
pub fn generate_peer_id(addr: &SocketEndpoint) -> (r: Vec<u8>)
    ensures
        r@ == socket_peer_id(*addr),
{
    let mut bytes: Vec<u8> = Vec::new();
    match addr.ip {
        IpAddress::V4(o) => {
            bytes.push(0);
            let mut i: usize = 0;
            while i < 4
                invariant
                    i <= 4,
                    bytes@ == seq![0u8] + o@.subrange(0, i as int),
                decreases 4 - i,
            {
                bytes.push(o[i]);
                i = i + 1;
                assert(bytes@ =~= seq![0u8] + o@.subrange(0, i as int));
            }
        },
        IpAddress::V6(o) => {
            bytes.push(1);
            let mut i: usize = 0;
            while i < 16
                invariant
                    i <= 16,
                    bytes@ == seq![1u8] + o@.subrange(0, i as int),
                decreases 16 - i,
            {
                bytes.push(o[i]);
                i = i + 1;
                assert(bytes@ =~= seq![1u8] + o@.subrange(0, i as int));
            }
        },
    }
    bytes.push((addr.port / 256) as u8);
    bytes.push((addr.port % 256) as u8);
    assert(bytes@ =~= socket_peer_id(*addr));
    bytes
}

/// The record of a peer learnt from a bootstrap node at `now`: connected,
/// with no metadata, first and last seen at `now`.
pub open spec fn learnt_peer(id: Seq<u8>, addresses: Seq<SocketEndpoint>, protocols: Seq<Seq<char>>, now: u64) -> PeerView {
    PeerView {
        id,
        addresses,
        protocols,
        metadata: Seq::empty(),
        first_seen: Some(now),
        last_seen: Some(now),
        connection_status: ConnectionStatus::Connected,
    }
}

/// What happens while waiting for a connection to a bootstrap node.
pub enum DialEvent {
    /// A connection to a peer was made; `remote` is its address.
    Connected { peer_id: Vec<u8>, remote: Multiaddr },
    /// A peer said which addresses it listens on and which protocols it
    /// speaks.
    Identified { peer_id: Vec<u8>, listen_addrs: Vec<Multiaddr>, protocols: Vec<String> },
    /// Connecting failed; the peer when it is known, and why.
    ConnectionFailed { peer: Option<String>, error: String },
    /// Anything else, or nothing within the wait.
    Other,
}

/// The state of a connection attempt to a bootstrap node: whether it
/// connected, and the peers learnt so far.
pub struct BootstrapDial {
    connected: bool,
    discovered: Vec<PeerInfo>,
}

impl BootstrapDial {
    /// Whether the node connected.
    pub closed spec fn is_connected(&self) -> bool {
        self.connected
    }

    /// The peers learnt, in order.
    pub closed spec fn learnt(&self) -> Seq<PeerView> {
        peer_views(self.discovered@)
    }

    /// Nothing learnt, not connected.
    pub fn new() -> (r: Self)
        ensures
            !r.is_connected(),
            r.learnt() == Seq::<PeerView>::empty(),
    {
        let r = BootstrapDial { connected: false, discovered: Vec::new() };
        assert(r.learnt() =~= Seq::<PeerView>::empty());
        r
    }

    /// Whether to keep waiting: not connected, and less than the timeout
    /// gone.
    pub fn keeps_waiting(&self, elapsed_ms: u64, timeout_ms: u64) -> (r: bool)
        ensures
            r == (elapsed_ms < timeout_ms && !self.is_connected()),
    {
        elapsed_ms < timeout_ms && !self.connected
    }

    /// Take an event at time `now`: a connection or an identification
    /// gives a peer, which is learnt and handed back to be announced; a
    /// failure ends the attempt with an error.
    pub fn step(&mut self, event: DialEvent, now: u64) -> (r: Result<Option<PeerInfo>, DiscoveryError>)
        ensures
            match event {
                DialEvent::Connected { peer_id, remote } => {
                    let p = learnt_peer(
                        peer_id@,
                        match tcp_socket_of(addr_parts(remote)) {
                            Some(s) => seq![s],
                            None => Seq::empty(),
                        },
                        Seq::empty(),
                        now,
                    );
                    &&& r matches Ok(Some(q)) && q@ == p
                    &&& final(self).is_connected()
                    &&& final(self).learnt() == old(self).learnt().push(p)
                },
                DialEvent::Identified { peer_id, listen_addrs, protocols } => {
                    let p = learnt_peer(
                        peer_id@,
                        tcp_sockets(listen_addrs@, listen_addrs@.len() as int),
                        crate::discovery::interface::text_views(protocols@),
                        now,
                    );
                    &&& r matches Ok(Some(q)) && q@ == p
                    &&& final(self).is_connected() == old(self).is_connected()
                    &&& final(self).learnt() == old(self).learnt().push(p)
                },
                DialEvent::ConnectionFailed { peer, error } => {
                    &&& r matches Err(DiscoveryError::BootstrapError(m)) && m@ == "Connection failed to "@ + match peer {
                        Some(t) => t@,
                        None => "unknown"@,
                    } + ": "@ + error@
                    &&& *final(self) == *old(self)
                },
                DialEvent::Other => {
                    &&& r matches Ok(None)
                    &&& *final(self) == *old(self)
                },
            },
    {
        match event {
            DialEvent::Connected { peer_id, remote } => {
                let mut addresses: Vec<SocketEndpoint> = Vec::new();
                match extract_socket_addr_from_multiaddr(&remote) {
                    Some(s) => {
                        addresses.push(s);
                    },
                    None => {},
                }
                let info = PeerInfo {
                    id: peer_id,
                    addresses,
                    protocols: Vec::new(),
                    metadata: Vec::new(),
                    first_seen: Some(now),
                    last_seen: Some(now),
                    connection_status: ConnectionStatus::Connected,
                };
                proof {
                    assert(info@.addresses =~= match tcp_socket_of(addr_parts(remote)) {
                        Some(s) => seq![s],
                        None => Seq::<SocketEndpoint>::empty(),
                    });
                    assert(info@.protocols =~= Seq::<Seq<char>>::empty());
                    assert(info@.metadata =~= Seq::<(Seq<char>, Seq<u8>)>::empty());
                }
                self.connected = true;
                let ghost before = peer_views(self.discovered@);
                self.discovered.push(info.duplicate());
                assert(peer_views(self.discovered@) =~= before.push(info@));
                Ok(Some(info))
            },
            DialEvent::Identified { peer_id, listen_addrs, protocols } => {
                let mut addresses: Vec<SocketEndpoint> = Vec::new();
                let mut i: usize = 0;
                while i < listen_addrs.len()
                    invariant
                        i <= listen_addrs@.len(),
                        addresses@ == tcp_sockets(listen_addrs@, i as int),
                    decreases listen_addrs@.len() - i,
                {
                    match extract_socket_addr_from_multiaddr(&listen_addrs[i]) {
                        Some(s) => {
                            addresses.push(s);
                        },
                        None => {},
                    }
                    i = i + 1;
                }
                let info = PeerInfo {
                    id: peer_id,
                    addresses,
                    protocols,
                    metadata: Vec::new(),
                    first_seen: Some(now),
                    last_seen: Some(now),
                    connection_status: ConnectionStatus::Connected,
                };
                proof {
                    assert(info@.metadata =~= Seq::<(Seq<char>, Seq<u8>)>::empty());
                }
                let ghost before = peer_views(self.discovered@);
                self.discovered.push(info.duplicate());
                assert(peer_views(self.discovered@) =~= before.push(info@));
                Ok(Some(info))
            },
            DialEvent::ConnectionFailed { peer, error } => {
                let mut m = String::from_str("Connection failed to ");
                match &peer {
                    Some(t) => m.append(t.as_str()),
                    None => m.append("unknown"),
                }
                m.append(": ");
                m.append(error.as_str());
                Err(DiscoveryError::BootstrapError(m))
            },
            DialEvent::Other => Ok(None),
        }
    }

    /// The end of the attempt: the peers learnt when the node connected,
    /// else a timeout error naming the node's address.
    pub fn finish(self, addr_text: &str) -> (r: Result<Vec<PeerInfo>, DiscoveryError>)
        ensures
            self.is_connected() ==> (r matches Ok(v) && peer_views(v@) == self.learnt()),
            !self.is_connected() ==> (r matches Err(DiscoveryError::BootstrapError(m)) && m@
                == "Timeout connecting to bootstrap node: "@ + addr_text@),
    {
        if self.connected {
            Ok(self.discovered)
        } else {
            let mut m = String::from_str("Timeout connecting to bootstrap node: ");
            m.append(addr_text);
            Err(DiscoveryError::BootstrapError(m))
        }
    }
}

/// What discovery through bootstrap nodes knows: its settings, whether it
/// runs, its own record, the local peer identifier, and the peers learnt
/// with when they were last seen.
pub struct BootstrapDiscovery {
    config: BootstrapDiscoveryConfig,
    peers: PeerCache,
    running: bool,
    own_info: Option<PeerInfo>,
    local_peer_id: Option<Vec<u8>>,
}

impl BootstrapDiscovery {
    /// The settings.
    pub closed spec fn settings(&self) -> BootstrapDiscoveryConfig {
        self.config
    }

    /// The peers learnt, in the order first learnt, with when they were
    /// last seen.
    pub closed spec fn peer_list(&self) -> Seq<PeerEntry> {
        self.peers.peer_list()
    }

    /// Whether the service runs.
    pub closed spec fn runs(&self) -> bool {
        self.running
    }

    /// The local peer identifier, once known.
    pub closed spec fn local_id(&self) -> Option<Seq<u8>> {
        match self.local_peer_id {
            Some(v) => Some(v@),
            None => None,
        }
    }

    /// The service's invariant: one entry per peer.
    pub closed spec fn well_formed(&self) -> bool {
        self.peers.well_formed()
    }

    /// The service with the default settings.
    pub fn new() -> (r: Self)
        ensures
            r.well_formed(),
            r.peer_list() == Seq::<PeerEntry>::empty(),
            !r.runs(),
            r.local_id() is None,
            r.settings().bootstrap_nodes@.len() == 0,
            r.settings().bootstrap_nodes_legacy@.len() == 0,
            r.settings().event_buffer_size == 32,
            r.settings().peer_expiration == 3600,
            r.settings().protocol_name@ == "OpenBroadcastNetwork/1.0.0"@,
            r.settings().connect_timeout == 10,
            r.settings().refresh_interval == 300,
    {
        let config = BootstrapDiscoveryConfig::default();
        assert(legacy_ipv4(config.bootstrap_nodes_legacy@));
        Self::with_config(config)
    }

    /// The service with some settings: each legacy node is added to the
    /// bootstrap nodes as `/ip4/<address>/tcp/<port>`.
    pub fn with_config(config: BootstrapDiscoveryConfig) -> (r: Self)
        requires
            legacy_ipv4(config.bootstrap_nodes_legacy@),
        ensures
            r.well_formed(),
            r.peer_list() == Seq::<PeerEntry>::empty(),
            !r.runs(),
            r.local_id() is None,
            r.settings().bootstrap_nodes@.len() == config.bootstrap_nodes@.len()
                + config.bootstrap_nodes_legacy@.len(),
            forall|i: int| 0 <= i < config.bootstrap_nodes@.len() ==> r.settings().bootstrap_nodes@[i]
                == #[trigger] config.bootstrap_nodes@[i],
            forall|i: int| 0 <= i < config.bootstrap_nodes_legacy@.len() ==> addr_parts(
                r.settings().bootstrap_nodes@[config.bootstrap_nodes@.len() + i],
            ) == legacy_parts(#[trigger] config.bootstrap_nodes_legacy@[i]),
            r.settings().bootstrap_nodes_legacy@ == config.bootstrap_nodes_legacy@,
            r.settings().event_buffer_size == config.event_buffer_size,
            r.settings().peer_expiration == config.peer_expiration,
            r.settings().protocol_name@ == config.protocol_name@,
            r.settings().connect_timeout == config.connect_timeout,
            r.settings().refresh_interval == config.refresh_interval,
    {
        let ghost c0 = config;
        let mut config = config;
        let ghost nodes0 = config.bootstrap_nodes@;
        let ghost legacy = config.bootstrap_nodes_legacy@;
        let mut i: usize = 0;
        while i < config.bootstrap_nodes_legacy.len()
            invariant
                legacy == config.bootstrap_nodes_legacy@,
                legacy == c0.bootstrap_nodes_legacy@,
                nodes0 == c0.bootstrap_nodes@,
                config.event_buffer_size == c0.event_buffer_size,
                config.peer_expiration == c0.peer_expiration,
                config.protocol_name == c0.protocol_name,
                config.connect_timeout == c0.connect_timeout,
                config.refresh_interval == c0.refresh_interval,
                legacy_ipv4(legacy),
                i <= legacy.len(),
                config.bootstrap_nodes@.len() == nodes0.len() + i,
                forall|j: int| 0 <= j < nodes0.len() ==> config.bootstrap_nodes@[j] == #[trigger] nodes0[j],
                forall|j: int| 0 <= j < i ==> addr_parts(config.bootstrap_nodes@[nodes0.len() + j]) == legacy_parts(
                    #[trigger] legacy[j],
                ),
            decreases legacy.len() - i,
        {
            let s = config.bootstrap_nodes_legacy[i];
            assert(s.ip is V4);
            match s.ip {
                IpAddress::V4(o) => {
                    let mut m = multiaddr_from_ip4(o);
                    multiaddr_push_tcp(&mut m, s.port);
                    assert(addr_parts(m) =~= legacy_parts(s));
                    config.bootstrap_nodes.push(m);
                },
                IpAddress::V6(_) => {},
            }
            i = i + 1;
        }
        BootstrapDiscovery {
            config,
            peers: PeerCache::new(),
            running: false,
            own_info: None,
            local_peer_id: None,
        }
    }

    /// The settings.
    pub fn config(&self) -> (r: &BootstrapDiscoveryConfig)
        ensures
            *r == self.settings(),
    {
        &self.config
    }

    /// Whether the service runs.
    pub fn is_running(&self) -> (r: bool)
        ensures
            r == self.runs(),
    {
        self.running
    }

    /// The local peer identifier, once known.
    pub fn local_peer_id(&self) -> (r: Option<Vec<u8>>)
        ensures
            match self.local_id() {
                Some(v) => r matches Some(w) && w@ == v,
                None => r is None,
            },
    {
        match &self.local_peer_id {
            Some(v) => {
                let w = crate::bytes_be::copy_range(v.as_slice(), 0, v.len());
                assert(w@ =~= v@);
                Some(w)
            },
            None => None,
        }
    }

    /// Take the local peer identifier, once the network identity is made.
    pub fn set_local_peer_id(&mut self, id: Vec<u8>)
        requires
            old(self).well_formed(),
        ensures
            final(self).well_formed(),
            final(self).local_id() == Some(id@),
            final(self).peer_list() == old(self).peer_list(),
            final(self).runs() == old(self).runs(),
            final(self).settings() == old(self).settings(),
    {
        self.local_peer_id = Some(id);
    }

    /// Whether the service can start: some bootstrap node is configured.
    pub fn check_nodes(&self) -> (r: Result<(), DiscoveryError>)
        ensures
            (self.settings().bootstrap_nodes@.len() > 0 || self.settings().bootstrap_nodes_legacy@.len() > 0)
                ==> r is Ok,
            (self.settings().bootstrap_nodes@.len() == 0 && self.settings().bootstrap_nodes_legacy@.len() == 0)
                ==> (r matches Err(DiscoveryError::BootstrapError(m)) && m@ == "No bootstrap nodes configured"@),
    {
        if self.config.bootstrap_nodes.len() == 0 && self.config.bootstrap_nodes_legacy.len() == 0 {
            return Err(DiscoveryError::BootstrapError(String::from_str("No bootstrap nodes configured")));
        }
        Ok(())
    }

    /// Mark the service running or stopped.
    pub fn set_running(&mut self, running: bool)
        requires
            old(self).well_formed(),
        ensures
            final(self).well_formed(),
            final(self).runs() == running,
            final(self).peer_list() == old(self).peer_list(),
            final(self).local_id() == old(self).local_id(),
            final(self).settings() == old(self).settings(),
    {
        self.running = running;
    }

    /// Announce this node at `now`: its record is kept among the peers.
    pub fn announce_at(&mut self, info: PeerInfo, now: u64) -> (r: Result<(), DiscoveryError>)
        requires
            old(self).well_formed(),
        ensures
            r is Ok,
            final(self).well_formed(),
            final(self).peer_list() == recorded(old(self).peer_list(), (info@, now)),
            final(self).runs() == old(self).runs(),
            final(self).local_id() == old(self).local_id(),
            final(self).settings() == old(self).settings(),
    {
        self.peers.insert(info, now);
        Ok(())
    }

    /// Record the peers a bootstrap node gave, seen at `now`.
    pub fn record_peers(&mut self, found: Vec<PeerInfo>, now: u64)
        requires
            old(self).well_formed(),
        ensures
            final(self).well_formed(),
            final(self).peer_list() == recorded_all(old(self).peer_list(), peer_views(found@), now, found@.len() as int),
            final(self).runs() == old(self).runs(),
            final(self).local_id() == old(self).local_id(),
            final(self).settings() == old(self).settings(),
    {
        let ghost s0 = self.peer_list();
        let ghost fv = peer_views(found@);
        let mut found = found;
        let n = found.len();
        let mut i: usize = 0;
        while i < n
            invariant
                n == fv.len(),
                i <= n,
                found@.len() == n,
                forall|j: int| i <= j < n ==> (#[trigger] found@[j])@ == fv[j],
                self.well_formed(),
                self.peer_list() == recorded_all(s0, fv, now, i as int),
                self.runs() == old(self).runs(),
                self.local_id() == old(self).local_id(),
                self.settings() == old(self).settings(),
            decreases n - i,
        {
            let p = found[i].duplicate();
            self.peers.insert(p, now);
            i = i + 1;
        }
    }

    /// The record of a peer learnt.
    pub fn lookup_peer(&self, peer_id: &[u8]) -> (r: Result<Option<PeerInfo>, DiscoveryError>)
        ensures
            match peer_lookup(self.peer_list(), peer_id@) {
                Some(e) => r matches Ok(Some(p)) && p@ == e.0,
                None => r matches Ok(None),
            },
    {
        Ok(self.peers.lookup(peer_id))
    }

    /// The peers seen less than the expiration before `now` that match a
    /// criterion (any when it is empty, else those with a protocol
    /// containing it).
    pub fn find_peers_at(&self, criteria: &str, now: u64) -> (r: Result<Vec<PeerInfo>, DiscoveryError>)
        ensures
            r matches Ok(v) && peer_views(v@) == entry_peers(
                kept_entries(
                    self.peer_list(),
                    |e: PeerEntry| seen_within(e, now, self.settings().peer_expiration) && matches_criteria(
                        e.0,
                        criteria@,
                    ),
                    self.peer_list().len() as int,
                ),
            ),
    {
        Ok(self.peers.fresh_matching(criteria, now, self.config.peer_expiration))
    }

    /// The peers seen less than the expiration before `now`.
    pub fn discovered_peers_at(&self, now: u64) -> (r: Result<Vec<PeerInfo>, DiscoveryError>)
        ensures
            r matches Ok(v) && peer_views(v@) == entry_peers(
                kept_entries(
                    self.peer_list(),
                    |e: PeerEntry| seen_within(e, now, self.settings().peer_expiration),
                    self.peer_list().len() as int,
                ),
            ),
    {
        Ok(self.peers.fresh(now, self.config.peer_expiration))
    }

    /// Drop the peers seen more than the expiration before `now`; their
    /// identifiers come back, in order, to be reported expired.
    pub fn expire_at(&mut self, now: u64) -> (r: Vec<Vec<u8>>)
        requires
            old(self).well_formed(),
        ensures
            final(self).well_formed(),
            final(self).peer_list() == recent_entries(old(self).peer_list(), now, old(self).settings().peer_expiration),
            r@.map_values(|id: Vec<u8>| id@) == stale_ids(
                old(self).peer_list(),
                now,
                old(self).settings().peer_expiration,
            ),
            final(self).runs() == old(self).runs(),
            final(self).local_id() == old(self).local_id(),
            final(self).settings() == old(self).settings(),
    {
        let exp = self.config.peer_expiration;
        self.peers.expire(now, exp)
    }
}

/// The entries after recording the first `n` of some peers, all seen at
/// `now`, one after the other.
pub open spec fn recorded_all(s: Seq<PeerEntry>, found: Seq<PeerView>, now: u64, n: int) -> Seq<PeerEntry>
    decreases n,
{
    if n <= 0 {
        s
    } else {
        recorded(recorded_all(s, found, now, n - 1), (found[n - 1], now))
    }
}

} // verus!
