//! The discovery manager: which services run, and the peers they report.
use vstd::prelude::*;
use crate::discovery::bootstrap::BootstrapDiscoveryConfig;
use crate::discovery::dht::DhtDiscoveryConfig;
use crate::discovery::interface::{ConnectionStatus, DiscoveryEvent, PeerInfo, PeerView};
use crate::discovery::peer_cache::peer_views;

verus! {

/// Settings of the discovery manager.
#[derive(Debug, Clone)]
pub struct DiscoveryManagerConfig {
    /// Whether to discover through the distributed hash table.
    pub enable_dht: bool,
    /// Whether to discover through bootstrap nodes.
    pub enable_bootstrap: bool,
    /// Settings of the hash table service, when it is enabled.
    pub dht_config: Option<DhtDiscoveryConfig>,
    /// Settings of the bootstrap service, when it is enabled.
    pub bootstrap_config: Option<BootstrapDiscoveryConfig>,
    /// How often to look for events (milliseconds).
    pub poll_interval_ms: u64,
}

impl Default for DiscoveryManagerConfig {
    fn default() -> (r: Self)
        ensures
            !r.enable_dht,
            !r.enable_bootstrap,
            r.dht_config is None,
            r.bootstrap_config is None,
            r.poll_interval_ms == 100,
    {
        DiscoveryManagerConfig {
            enable_dht: false,
            enable_bootstrap: false,
            dht_config: None,
            bootstrap_config: None,
            poll_interval_ms: 100,
        }
    }
}

/// No two records are for the same peer.
pub open spec fn distinct_peers(s: Seq<PeerView>) -> bool {
    forall|i: int, j: int| 0 <= i < j < s.len() ==> s[i].id != s[j].id
}

/// Where the record of `id` is, searching from `i`; -1 when there is none.
pub open spec fn known_index(s: Seq<PeerView>, id: Seq<u8>, i: int) -> int
    decreases s.len() - i,
{
    if i < 0 || i >= s.len() {
        -1
    } else if s[i].id == id {
        i
    } else {
        known_index(s, id, i + 1)
    }
}

/// The record of a peer.
pub open spec fn known_lookup(s: Seq<PeerView>, id: Seq<u8>) -> Option<PeerView> {
    let i = known_index(s, id, 0);
    if i >= 0 {
        Some(s[i])
    } else {
        None
    }
}

/// The records after an event: a discovered peer replaces its record or
/// comes last; an updated peer replaces a record it has; an expired peer's
/// record goes; a status change is written into a record the peer has;
/// other events change nothing.
pub open spec fn after_event(s: Seq<PeerView>, event: DiscoveryEvent) -> Seq<PeerView> {
    match event {
        DiscoveryEvent::PeerDiscovered(p) => {
            let i = known_index(s, p@.id, 0);
            if i >= 0 {
                s.update(i, p@)
            } else {
                s.push(p@)
            }
        },
        DiscoveryEvent::PeerUpdated(p) => {
            let i = known_index(s, p@.id, 0);
            if i >= 0 {
                s.update(i, p@)
            } else {
                s
            }
        },
        DiscoveryEvent::PeerExpired(id) => {
            let i = known_index(s, id@, 0);
            if i >= 0 {
                s.remove(i)
            } else {
                s
            }
        },
        DiscoveryEvent::PeerConnectionStatusChanged { peer_id, status, error } => {
            let i = known_index(s, peer_id@, 0);
            if i >= 0 {
                s.update(i, PeerView { connection_status: status, ..s[i] })
            } else {
                s
            }
        },
        _ => s,
    }
}

/// What `known_index` finds.
proof fn lemma_known_index(s: Seq<PeerView>, id: Seq<u8>, i: int)
    requires
        0 <= i,
    ensures
        known_index(s, id, i) == -1 || (i <= known_index(s, id, i) < s.len() && s[known_index(s, id, i)].id
            == id),
        known_index(s, id, i) == -1 ==> forall|j: int| i <= j < s.len() ==> s[j].id != id,
        forall|j: int| i <= j < s.len() && s[j].id == id ==> known_index(s, id, i) != -1,
    decreases s.len() - i,
{
    if i < s.len() && s[i].id != id {
        lemma_known_index(s, id, i + 1);
    }
}

/// Where `known_index` lands when the record is at `k`, searching from
/// `i <= k` over records of other peers.
proof fn lemma_known_index_at(s: Seq<PeerView>, id: Seq<u8>, i: int, k: int)
    requires
        0 <= i <= k < s.len(),
        s[k].id == id,
        forall|j: int| i <= j < k ==> s[j].id != id,
    ensures
        known_index(s, id, i) == k,
    decreases k - i,
{
    if i < k {
        lemma_known_index_at(s, id, i + 1, k);
    }
}

/// The peers the discovery services report, one record per peer, and
/// whether the manager runs.
pub struct DiscoveryManager {
    config: DiscoveryManagerConfig,
    peers: Vec<PeerInfo>,
    running: bool,
}

impl DiscoveryManager {
    /// The settings.
    pub closed spec fn settings(&self) -> DiscoveryManagerConfig {
        self.config
    }

    /// The records of the peers known, in the order they were first
    /// reported.
    pub closed spec fn known(&self) -> Seq<PeerView> {
        peer_views(self.peers@)
    }

    /// Whether the manager runs.
    pub closed spec fn runs(&self) -> bool {
        self.running
    }

    /// One record per peer.
    pub open spec fn well_formed(&self) -> bool {
        distinct_peers(self.known())
    }

    /// A manager with some settings, knowing no peers, not running.
    pub fn new(config: DiscoveryManagerConfig) -> (r: Self)
        ensures
            r.well_formed(),
            r.settings() == config,
            r.known() == Seq::<PeerView>::empty(),
            !r.runs(),
    {
        let r = DiscoveryManager { config, peers: Vec::new(), running: false };
        assert(r.known() =~= Seq::<PeerView>::empty());
        r
    }

    /// Whether the manager runs.
    pub fn is_running(&self) -> (r: bool)
        ensures
            r == self.runs(),
    {
        self.running
    }

    /// Mark the manager running.
    pub fn mark_running(&mut self)
        requires
            old(self).well_formed(),
        ensures
            final(self).well_formed(),
            final(self).runs(),
            final(self).known() == old(self).known(),
            final(self).settings() == old(self).settings(),
    {
        self.running = true;
    }

    /// Stopping: the peers are forgotten and the manager no longer runs.
    pub fn mark_stopped(&mut self)
        ensures
            final(self).well_formed(),
            !final(self).runs(),
            final(self).known() == Seq::<PeerView>::empty(),
            final(self).settings() == old(self).settings(),
    {
        self.peers = Vec::new();
        self.running = false;
        assert(self.known() =~= Seq::<PeerView>::empty());
    }

    /// Where the record of a peer is.
    fn find(&self, id: &[u8]) -> (r: Option<usize>)
        ensures
            match r {
                Some(i) => i == known_index(self.known(), id@, 0) && i < self.known().len(),
                None => known_index(self.known(), id@, 0) == -1,
            },
    {
        let ghost s = self.known();
        let mut i: usize = 0;
        while i < self.peers.len()
            invariant
                i <= self.peers@.len(),
                s == self.known(),
                known_index(s, id@, 0) == known_index(s, id@, i as int),
            decreases self.peers@.len() - i,
        {
            if crate::crypto::bytes_equal(self.peers[i].id.as_slice(), id) {
                return Some(i);
            }
            i = i + 1;
        }
        None
    }

    /// Take an event reported by a discovery service: see
    /// [`after_event`]. The event itself is then passed on unchanged.
    pub fn handle_discovery_event(&mut self, event: &DiscoveryEvent)
        requires
            old(self).well_formed(),
        ensures
            final(self).well_formed(),
            final(self).known() == after_event(old(self).known(), *event),
            final(self).runs() == old(self).runs(),
            final(self).settings() == old(self).settings(),
    {
        let ghost s = self.known();
        match event {
            DiscoveryEvent::PeerDiscovered(info) => {
                proof {
                    lemma_known_index(s, info@.id, 0);
                }
                match self.find(info.id.as_slice()) {
                    Some(i) => {
                        self.peers.set(i, info.duplicate());
                        proof {
                            let t = self.known();
                            assert(t =~= s.update(i as int, info@));
                            assert forall|x: int, y: int| 0 <= x < y < t.len() implies t[x].id != t[y].id by {
                                assert(t[x].id == s[x].id);
                                assert(t[y].id == s[y].id);
                            }
                        }
                    },
                    None => {
                        self.peers.push(info.duplicate());
                        proof {
                            let t = self.known();
                            assert(t =~= s.push(info@));
                            assert forall|x: int, y: int| 0 <= x < y < t.len() implies t[x].id != t[y].id by {
                                if y == s.len() {
                                    assert(s[x].id != info@.id);
                                }
                            }
                        }
                    },
                }
            },
            DiscoveryEvent::PeerUpdated(info) => {
                match self.find(info.id.as_slice()) {
                    Some(i) => {
                        proof {
                            lemma_known_index(s, info@.id, 0);
                        }
                        self.peers.set(i, info.duplicate());
                        proof {
                            let t = self.known();
                            assert(t =~= s.update(i as int, info@));
                            assert forall|x: int, y: int| 0 <= x < y < t.len() implies t[x].id != t[y].id by {
                                assert(t[x].id == s[x].id);
                                assert(t[y].id == s[y].id);
                            }
                        }
                    },
                    None => {},
                }
            },
            DiscoveryEvent::PeerExpired(id) => {
                match self.find(id.as_slice()) {
                    Some(i) => {
                        self.peers.remove(i);
                        proof {
                            let t = self.known();
                            assert(t =~= s.remove(i as int));
                        }
                    },
                    None => {},
                }
            },
            DiscoveryEvent::PeerConnectionStatusChanged { peer_id, status, error } => {
                match self.find(peer_id.as_slice()) {
                    Some(i) => {
                        proof {
                            lemma_known_index(s, peer_id@, 0);
                        }
                        let mut p = self.peers[i].duplicate();
                        p.connection_status = *status;
                        self.peers.set(i, p);
                        proof {
                            let t = self.known();
                            assert(t =~= s.update(i as int, PeerView { connection_status: *status, ..s[i as int] }));
                            assert forall|x: int, y: int| 0 <= x < y < t.len() implies t[x].id != t[y].id by {
                                assert(t[x].id == s[x].id);
                                assert(t[y].id == s[y].id);
                            }
                        }
                    },
                    None => {},
                }
            },
            _ => {},
        }
    }

    /// The records of the peers known.
    pub fn get_peers(&self) -> (r: Vec<PeerInfo>)
        ensures
            peer_views(r@) == self.known(),
    {
        let mut out: Vec<PeerInfo> = Vec::new();
        let mut i: usize = 0;
        while i < self.peers.len()
            invariant
                i <= self.peers@.len(),
                peer_views(out@) == self.known().subrange(0, i as int),
            decreases self.peers@.len() - i,
        {
            let ghost before = peer_views(out@);
            let p = self.peers[i].duplicate();
            out.push(p);
            assert(peer_views(out@) =~= before.push(p@));
            i = i + 1;
            assert(peer_views(out@) =~= self.known().subrange(0, i as int));
        }
        assert(peer_views(out@) =~= self.known());
        out
    }

    /// The record of a peer.
    pub fn lookup_peer(&self, id: &[u8]) -> (r: Option<PeerInfo>)
        ensures
            match known_lookup(self.known(), id@) {
                Some(p) => r matches Some(q) && q@ == p,
                None => r is None,
            },
    {
        match self.find(id) {
            Some(i) => Some(self.peers[i].duplicate()),
            None => None,
        }
    }
}

/// A peer reported discovered is then found with the record reported; a
/// peer reported expired is then no longer found.
pub proof fn lemma_discovered_then_found(s: Seq<PeerView>, p: PeerInfo, id: Vec<u8>)
    requires
        distinct_peers(s),
    ensures
        known_lookup(after_event(s, DiscoveryEvent::PeerDiscovered(p)), p@.id) == Some(p@),
        known_lookup(after_event(s, DiscoveryEvent::PeerExpired(id)), id@) is None,
{
    lemma_known_index(s, p@.id, 0);
    let i = known_index(s, p@.id, 0);
    let t = after_event(s, DiscoveryEvent::PeerDiscovered(p));
    if i >= 0 {
        assert(t == s.update(i, p@));
        assert forall|j: int| 0 <= j < i implies t[j].id != p@.id by {
            assert(s[j].id != s[i].id);
        }
        lemma_known_index_at(t, p@.id, 0, i);
    } else {
        assert(t == s.push(p@));
        lemma_known_index_at(t, p@.id, 0, s.len() as int);
    }
    lemma_known_index(s, id@, 0);
    let k = known_index(s, id@, 0);
    let u = after_event(s, DiscoveryEvent::PeerExpired(id));
    if k >= 0 {
        assert(u == s.remove(k));
        assert forall|j: int| 0 <= j < u.len() implies u[j].id != id@ by {
            if j < k {
                assert(u[j] == s[j]);
                assert(s[j].id != s[k].id);
            } else {
                assert(u[j] == s[j + 1]);
                assert(s[j + 1].id != s[k].id);
            }
        }
    }
    lemma_known_index(u, id@, 0);
}

} // verus!
