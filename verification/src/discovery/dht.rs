//! Discovery through a distributed hash table: settings, the peers
//! learnt, and what the table's events do to them.
use vstd::prelude::*;
use libp2p::{Multiaddr, PeerId};
use crate::discovery::bootstrap::{extract_socket_addr_from_multiaddr, recorded_all, tcp_sockets};
use crate::discovery::interface::{ConnectionStatus, DiscoveryError, DiscoveryEvent, PeerInfo, PeerView};
use crate::discovery::peer_cache::{
    entry_peers, kept_entries, matches_criteria, peer_lookup, peer_views, recorded, seen_within, PeerCache, PeerEntry,
};
use crate::discovery::utils::{parse_peer_id, SocketEndpoint};

verus! {

/// Settings of discovery through a distributed hash table.
#[derive(Debug, Clone)]
pub struct DhtConfig {
    /// Whether this peer is a bootstrap node of the table.
    pub is_bootstrap: bool,
    /// How often to publish this peer's record again (seconds).
    pub republish_interval: u64,
    /// How often to refresh the routing table (seconds).
    pub refresh_interval: u64,
    /// Replication factor (the k of Kademlia).
    pub replication_factor: u8,
}

/// How long a peer learnt from the table is kept without being seen
/// (seconds).
pub const PEER_EXPIRATION_SECS: u64 = 3600;

/// Settings of discovery through the distributed hash table.
#[derive(Debug, Clone)]
pub struct DhtDiscoveryConfig {
    /// Name of the protocol.
    pub protocol_name: String,
    /// Most events held before they are read.
    pub event_buffer_size: usize,
    /// Peers to join the table through.
    pub bootstrap_peers: Vec<Multiaddr>,
    /// How long records live (seconds).
    pub record_ttl: u64,
    /// How long a peer record is kept (seconds).
    pub peer_expiration: u64,
}

impl Default for DhtDiscoveryConfig {
    fn default() -> (r: Self)
        ensures
            r.protocol_name@ == "/OpenBroadcastNetwork/1.0.0"@,
            r.event_buffer_size == 32,
            r.bootstrap_peers@.len() == 0,
            r.record_ttl == 7200,
            r.peer_expiration == 3600,
    {
        DhtDiscoveryConfig {
            protocol_name: String::from_str("/OpenBroadcastNetwork/1.0.0"),
            event_buffer_size: 32,
            bootstrap_peers: Vec::new(),
            record_ttl: 7200,
            peer_expiration: 3600,
        }
    }
}

/// What the table and the network report.
pub enum DhtEvent {
    /// A query for the closest peers found these peers.
    ClosestPeers(Vec<Vec<u8>>),
    /// The routing table now holds a peer at these addresses.
    RoutingUpdated { peer: Vec<u8>, addresses: Vec<Multiaddr> },
    /// A connection to a peer was made.
    ConnectionEstablished(Vec<u8>),
    /// The connection to a peer closed.
    ConnectionClosed(Vec<u8>),
    /// Anything else.
    Other,
}

/// The record of a peer learnt from the table at `now`, with no protocols
/// or metadata, first and last seen at `now`.
pub open spec fn table_peer(id: Seq<u8>, addresses: Seq<SocketEndpoint>, status: ConnectionStatus, now: u64) -> PeerView {
    PeerView {
        id,
        addresses,
        protocols: Seq::empty(),
        metadata: Seq::empty(),
        first_seen: Some(now),
        last_seen: Some(now),
        connection_status: status,
    }
}

/// The records of peers found by a query, at `now`: not connected.
pub open spec fn found_peers(ids: Seq<Vec<u8>>, now: u64) -> Seq<PeerView> {
    Seq::new(ids.len(), |i: int| table_peer(ids[i]@, Seq::empty(), ConnectionStatus::Disconnected, now))
}

/// A record of a peer learnt from the table.
fn table_record(id: &Vec<u8>, addresses: Vec<SocketEndpoint>, status: ConnectionStatus, now: u64) -> (r: PeerInfo)
    ensures
        r@ == table_peer(id@, addresses@, status, now),
{
    let id_copy = crate::bytes_be::copy_range(id.as_slice(), 0, id.len());
    let r = PeerInfo {
        id: id_copy,
        addresses,
        protocols: Vec::new(),
        metadata: Vec::new(),
        first_seen: Some(now),
        last_seen: Some(now),
        connection_status: status,
    };
    assert(r@.id =~= id@);
    assert(r@.protocols =~= Seq::<Seq<char>>::empty());
    assert(r@.metadata =~= Seq::<(Seq<char>, Seq<u8>)>::empty());
    r
}

/// What discovery through the table knows: its settings, whether it runs,
/// its own record, the local peer identifier, and the peers learnt with
/// when they were last seen.
pub struct DhtDiscovery {
    config: DhtDiscoveryConfig,
    peers: PeerCache,
    running: bool,
    own_info: Option<PeerInfo>,
    local_peer_id: Option<Vec<u8>>,
}

impl DhtDiscovery {
    /// The settings.
    pub closed spec fn settings(&self) -> DhtDiscoveryConfig {
        self.config
    }

    /// The peers learnt, in the order first learnt, with when they were
    /// last seen.
    pub closed spec fn peer_list(&self) -> Seq<PeerEntry> {
        self.peers.peer_list()
    }

    /// Whether the service runs.
    pub closed spec fn runs(&self) -> bool {
        self.running
    }

    /// This node's own record, once announced.
    pub closed spec fn own(&self) -> Option<PeerView> {
        match self.own_info {
            Some(p) => Some(p@),
            None => None,
        }
    }

    /// The local peer identifier, once known.
    pub closed spec fn local_id(&self) -> Option<Seq<u8>> {
        match self.local_peer_id {
            Some(v) => Some(v@),
            None => None,
        }
    }

    /// The service's invariant: one entry per peer.
    pub closed spec fn well_formed(&self) -> bool {
        self.peers.well_formed()
    }

    /// A service with some settings, not running, knowing no peers.
    pub fn new(config: DhtDiscoveryConfig) -> (r: Self)
        ensures
            r.well_formed(),
            r.settings() == config,
            r.peer_list() == Seq::<PeerEntry>::empty(),
            !r.runs(),
            r.own() is None,
            r.local_id() is None,
    {
        Self::with_config(config)
    }

    /// A service with some settings, not running, knowing no peers.
    pub fn with_config(config: DhtDiscoveryConfig) -> (r: Self)
        ensures
            r.well_formed(),
            r.settings() == config,
            r.peer_list() == Seq::<PeerEntry>::empty(),
            !r.runs(),
            r.own() is None,
            r.local_id() is None,
    {
        DhtDiscovery { config, peers: PeerCache::new(), running: false, own_info: None, local_peer_id: None }
    }

    /// The settings.
    pub fn config(&self) -> (r: &DhtDiscoveryConfig)
        ensures
            *r == self.settings(),
    {
        &self.config
    }

    /// Whether the service runs.
    pub fn is_running(&self) -> (r: bool)
        ensures
            r == self.runs(),
    {
        self.running
    }

    /// The local peer identifier, once known.
    pub fn local_peer_id(&self) -> (r: Option<Vec<u8>>)
        ensures
            match self.local_id() {
                Some(v) => r matches Some(w) && w@ == v,
                None => r is None,
            },
    {
        match &self.local_peer_id {
            Some(v) => {
                let w = crate::bytes_be::copy_range(v.as_slice(), 0, v.len());
                assert(w@ =~= v@);
                Some(w)
            },
            None => None,
        }
    }

    /// Take the local peer identifier, once the network identity is made.
    pub fn set_local_peer_id(&mut self, id: Vec<u8>)
        requires
            old(self).well_formed(),
        ensures
            final(self).well_formed(),
            final(self).local_id() == Some(id@),
            final(self).peer_list() == old(self).peer_list(),
            final(self).runs() == old(self).runs(),
            final(self).own() == old(self).own(),
            final(self).settings() == old(self).settings(),
    {
        self.local_peer_id = Some(id);
    }

    /// Starting is refused while the service runs.
    pub fn ensure_stopped(&self) -> (r: Result<(), DiscoveryError>)
        ensures
            self.runs() ==> r matches Err(DiscoveryError::AlreadyRunning),
            !self.runs() ==> r is Ok,
    {
        if self.running {
            Err(DiscoveryError::AlreadyRunning)
        } else {
            Ok(())
        }
    }

    /// Stopping is refused while the service does not run.
    pub fn ensure_running(&self) -> (r: Result<(), DiscoveryError>)
        ensures
            !self.runs() ==> r matches Err(DiscoveryError::NotRunning),
            self.runs() ==> r is Ok,
    {
        if self.running {
            Ok(())
        } else {
            Err(DiscoveryError::NotRunning)
        }
    }

    /// Mark the service running or stopped.
    pub fn set_running(&mut self, running: bool)
        requires
            old(self).well_formed(),
        ensures
            final(self).well_formed(),
            final(self).runs() == running,
            final(self).peer_list() == old(self).peer_list(),
            final(self).own() == old(self).own(),
            final(self).local_id() == old(self).local_id(),
            final(self).settings() == old(self).settings(),
    {
        self.running = running;
    }

    /// Announce this node at `now`: its identifier must be a peer
    /// identifier, which comes back to be published; its record becomes
    /// this node's own and is kept among the peers. Nothing changes when
    /// the identifier is refused.
    pub fn announce_at(&mut self, info: PeerInfo, now: u64) -> (r: Result<PeerId, DiscoveryError>)
        requires
            old(self).well_formed(),
        ensures
            final(self).well_formed(),
            r is Ok ==> final(self).peer_list() == recorded(old(self).peer_list(), (info@, now))
                && final(self).own() == Some(info@),
            r matches Err(e) ==> (e matches DiscoveryError::Other(m) && "Invalid peer ID: "@.is_prefix_of(m@))
                && final(self).peer_list() == old(self).peer_list() && final(self).own() == old(self).own(),
            final(self).runs() == old(self).runs(),
            final(self).local_id() == old(self).local_id(),
            final(self).settings() == old(self).settings(),
    {
        match parse_peer_id(info.id.as_slice()) {
            Ok(peer_id) => {
                self.own_info = Some(info.duplicate());
                self.peers.insert(info, now);
                Ok(peer_id)
            },
            Err(reason) => {
                let mut m = String::from_str("Invalid peer ID: ");
                m.append(reason.as_str());
                proof {
                    reveal_strlit("Invalid peer ID: ");
                    assert(m@.subrange(0, 17) =~= "Invalid peer ID: "@);
                }
                Err(DiscoveryError::Other(m))
            },
        }
    }

    /// The record of a peer learnt, when it is known here.
    pub fn lookup_cached(&self, peer_id: &[u8]) -> (r: Option<PeerInfo>)
        ensures
            match peer_lookup(self.peer_list(), peer_id@) {
                Some(e) => r matches Some(p) && p@ == e.0,
                None => r is None,
            },
    {
        self.peers.lookup(peer_id)
    }

    /// The peers known here that match a criterion (any when it is
    /// empty, else those with a protocol containing it).
    pub fn find_local(&self, criteria: &str) -> (r: Vec<PeerInfo>)
        ensures
            peer_views(r@) == entry_peers(
                kept_entries(
                    self.peer_list(),
                    |e: PeerEntry| matches_criteria(e.0, criteria@),
                    self.peer_list().len() as int,
                ),
            ),
    {
        self.peers.matching(criteria)
    }

    /// The peers seen less than an hour before `now`.
    pub fn discovered_peers_at(&self, now: u64) -> (r: Result<Vec<PeerInfo>, DiscoveryError>)
        ensures
            r matches Ok(v) && peer_views(v@) == entry_peers(
                kept_entries(
                    self.peer_list(),
                    |e: PeerEntry| seen_within(e, now, PEER_EXPIRATION_SECS),
                    self.peer_list().len() as int,
                ),
            ),
    {
        Ok(self.peers.fresh(now, PEER_EXPIRATION_SECS))
    }

    /// Take an event of the table or the network at `now`: peers found or
    /// connected are recorded and reported discovered, a routing update is
    /// recorded with its addresses and reported updated, a closed
    /// connection is reported expired; the events to report come back in
    /// order.
    pub fn handle_event(&mut self, event: DhtEvent, now: u64) -> (r: Vec<DiscoveryEvent>)
        requires
            old(self).well_formed(),
        ensures
            final(self).well_formed(),
            match event {
                DhtEvent::ClosestPeers(ids) => {
                    &&& r@.len() == ids@.len()
                    &&& forall|i: int| 0 <= i < ids@.len() ==> ((#[trigger] r@[i]) matches DiscoveryEvent::PeerDiscovered(p)
                        && p@ == found_peers(ids@, now)[i])
                    &&& final(self).peer_list() == recorded_all(old(self).peer_list(), found_peers(ids@, now), now, ids@.len() as int)
                },
                DhtEvent::RoutingUpdated { peer, addresses } => {
                    let p = table_peer(peer@, tcp_sockets(addresses@, addresses@.len() as int), ConnectionStatus::Disconnected, now);
                    &&& r@.len() == 1
                    &&& r@[0] matches DiscoveryEvent::PeerUpdated(q) && q@ == p
                    &&& final(self).peer_list() == recorded(old(self).peer_list(), (p, now))
                },
                DhtEvent::ConnectionEstablished(peer) => {
                    let p = table_peer(peer@, Seq::empty(), ConnectionStatus::Connected, now);
                    &&& r@.len() == 1
                    &&& r@[0] matches DiscoveryEvent::PeerDiscovered(q) && q@ == p
                    &&& final(self).peer_list() == recorded(old(self).peer_list(), (p, now))
                },
                DhtEvent::ConnectionClosed(peer) => {
                    &&& r@.len() == 1
                    &&& r@[0] matches DiscoveryEvent::PeerExpired(id) && id@ == peer@
                    &&& final(self).peer_list() == old(self).peer_list()
                },
                DhtEvent::Other => {
                    &&& r@.len() == 0
                    &&& final(self).peer_list() == old(self).peer_list()
                },
            },
            final(self).runs() == old(self).runs(),
            final(self).own() == old(self).own(),
            final(self).local_id() == old(self).local_id(),
            final(self).settings() == old(self).settings(),
    {
        let mut out: Vec<DiscoveryEvent> = Vec::new();
        match event {
            DhtEvent::ClosestPeers(ids) => {
                let ghost s0 = self.peer_list();
                let ghost fv = found_peers(ids@, now);
                let mut i: usize = 0;
                while i < ids.len()
                    invariant
                        i <= ids@.len(),
                        fv == found_peers(ids@, now),
                        out@.len() == i,
                        forall|j: int| 0 <= j < i ==> ((#[trigger] out@[j]) matches DiscoveryEvent::PeerDiscovered(p) && p@ == fv[j]),
                        self.well_formed(),
                        self.peer_list() == recorded_all(s0, fv, now, i as int),
                        self.runs() == old(self).runs(),
                        self.own() == old(self).own(),
                        self.local_id() == old(self).local_id(),
                        self.settings() == old(self).settings(),
                    decreases ids@.len() - i,
                {
                    let none: Vec<SocketEndpoint> = Vec::new();
                    assert(none@ =~= Seq::<SocketEndpoint>::empty());
                    let info = table_record(&ids[i], none, ConnectionStatus::Disconnected, now);
                    assert(info@ == fv[i as int]);
                    self.peers.insert(info.duplicate(), now);
                    out.push(DiscoveryEvent::PeerDiscovered(info));
                    i = i + 1;
                }
            },
            DhtEvent::RoutingUpdated { peer, addresses } => {
                let mut sockets: Vec<SocketEndpoint> = Vec::new();
                let mut i: usize = 0;
                while i < addresses.len()
                    invariant
                        i <= addresses@.len(),
                        sockets@ == tcp_sockets(addresses@, i as int),
                    decreases addresses@.len() - i,
                {
                    match extract_socket_addr_from_multiaddr(&addresses[i]) {
                        Some(s) => {
                            sockets.push(s);
                        },
                        None => {},
                    }
                    i = i + 1;
                }
                let info = table_record(&peer, sockets, ConnectionStatus::Disconnected, now);
                self.peers.insert(info.duplicate(), now);
                out.push(DiscoveryEvent::PeerUpdated(info));
            },
            DhtEvent::ConnectionEstablished(peer) => {
                let info = table_record(&peer, Vec::new(), ConnectionStatus::Connected, now);
                assert(info@.addresses =~= Seq::<SocketEndpoint>::empty());
                self.peers.insert(info.duplicate(), now);
                out.push(DiscoveryEvent::PeerDiscovered(info));
            },
            DhtEvent::ConnectionClosed(peer) => {
                out.push(DiscoveryEvent::PeerExpired(peer));
            },
            DhtEvent::Other => {},
        }
        out
    }
}

} // verus!
