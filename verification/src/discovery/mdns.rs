//! Discovery on the local network through multicast DNS: settings, the
//! peers heard of, and the checks of the discovery service.
use vstd::prelude::*;
use libp2p::Multiaddr;
use crate::discovery::bootstrap::last_tcp;
use crate::discovery::interface::{ConnectionStatus, DiscoveryError, DiscoveryEvent, PeerInfo, PeerView};
use crate::discovery::peer_cache::{
    entry_peers, peer_index, peer_views, recorded, recent_entries, stale_ids, PeerCache, PeerEntry,
};
use crate::discovery::utils::{addr_parts, multiaddr_protocols, scan_parts, AddrPart, IpAddress, SocketEndpoint};
use crate::text::{contains_text, has_substring, lossy_string, push_char, text_chars, utf8_lossy};

verus! {

/// The sending side of a one-shot channel.
#[verifier::external_type_specification]
#[verifier::external_body]
#[verifier::reject_recursive_types(T)]
pub struct ExOneshotSender<T>(tokio::sync::oneshot::Sender<T>);

/// Lifetime of multicast DNS records by default (seconds).
pub const DEFAULT_TTL: u32 = 120;

/// Events held before they are read, by default.
pub const DEFAULT_EVENT_BUFFER_SIZE: usize = 100;

/// How long a peer is kept without being heard of, by default (seconds).
pub const DEFAULT_PEER_EXPIRATION: u64 = 300;

/// Settings of discovery through multicast DNS.
#[derive(Debug)]
pub struct MdnsDiscoveryConfig {
    /// Lifetime of the records (seconds).
    pub ttl: u32,
    /// Most events held before they are read.
    pub event_buffer_size: usize,
    /// How long a peer is kept without being heard of (seconds).
    pub peer_expiration: u64,
    /// Where to signal the running service to stop.
    pub shutdown_sender: Option<tokio::sync::oneshot::Sender<()>>,
}

impl Default for MdnsDiscoveryConfig {
    fn default() -> (r: Self)
        ensures
            r.ttl == DEFAULT_TTL,
            r.event_buffer_size == DEFAULT_EVENT_BUFFER_SIZE,
            r.peer_expiration == DEFAULT_PEER_EXPIRATION,
            r.shutdown_sender is None,
    {
        MdnsDiscoveryConfig {
            ttl: DEFAULT_TTL,
            event_buffer_size: DEFAULT_EVENT_BUFFER_SIZE,
            peer_expiration: DEFAULT_PEER_EXPIRATION,
            shutdown_sender: None,
        }
    }
}

impl MdnsDiscoveryConfig {
    /// The default settings.
    pub fn new() -> (r: Self)
        ensures
            r.ttl == DEFAULT_TTL,
            r.event_buffer_size == DEFAULT_EVENT_BUFFER_SIZE,
            r.peer_expiration == DEFAULT_PEER_EXPIRATION,
            r.shutdown_sender is None,
    {
        Self::default()
    }

    /// The settings with another record lifetime.
    pub fn with_ttl(self, ttl: u32) -> (r: Self)
        ensures
            r.ttl == ttl,
            r.event_buffer_size == self.event_buffer_size,
            r.peer_expiration == self.peer_expiration,
            r.shutdown_sender is None <==> self.shutdown_sender is None,
    {
        let mut c = self;
        c.ttl = ttl;
        c
    }

    /// The settings with another event buffer size.
    pub fn with_event_buffer_size(self, size: usize) -> (r: Self)
        ensures
            r.ttl == self.ttl,
            r.event_buffer_size == size,
            r.peer_expiration == self.peer_expiration,
            r.shutdown_sender is None <==> self.shutdown_sender is None,
    {
        let mut c = self;
        c.event_buffer_size = size;
        c
    }

    /// The settings with another peer expiration (seconds).
    pub fn with_peer_expiration(self, expiration_secs: u64) -> (r: Self)
        ensures
            r.ttl == self.ttl,
            r.event_buffer_size == self.event_buffer_size,
            r.peer_expiration == expiration_secs,
            r.shutdown_sender is None <==> self.shutdown_sender is None,
    {
        let mut c = self;
        c.peer_expiration = expiration_secs;
        c
    }

    /// A copy of the settings, without the stop signal, which cannot be
    /// copied.
    pub fn duplicate(&self) -> (r: Self)
        ensures
            r.ttl == self.ttl,
            r.event_buffer_size == self.event_buffer_size,
            r.peer_expiration == self.peer_expiration,
            r.shutdown_sender is None,
    {
        MdnsDiscoveryConfig {
            ttl: self.ttl,
            event_buffer_size: self.event_buffer_size,
            peer_expiration: self.peer_expiration,
            shutdown_sender: None,
        }
    }
}

/// What multicast DNS reports.
pub enum MdnsEvent {
    /// Peers heard of, each at an address.
    Discovered(Vec<(Vec<u8>, Multiaddr)>),
    /// Peers whose records lapsed.
    Expired(Vec<Vec<u8>>),
}

/// The last UDP port among protocols `0..n`.
pub open spec fn last_udp(parts: Seq<AddrPart>, n: int) -> Option<u16>
    decreases n,
{
    if n <= 0 {
        None
    } else {
        match parts[n - 1] {
            AddrPart::Udp(p) => Some(p),
            _ => last_udp(parts, n - 1),
        }
    }
}

/// The socket address of some protocols: the last IP address, with the
/// last TCP port, else the last UDP port; none without both.
pub open spec fn mdns_socket_of(parts: Seq<AddrPart>) -> Option<SocketEndpoint> {
    let n = parts.len() as int;
    let port = match last_tcp(parts, n) {
        Some(p) => Some(p),
        None => last_udp(parts, n),
    };
    match (scan_parts(parts, n).0, port) {
        (Some(a), Some(p)) => Some(SocketEndpoint { ip: a, port: p }),
        _ => None,
    }
}

/// The socket address a multiaddress names: its last IP address with its
/// last TCP port, else its last UDP port.
pub fn multiaddr_to_socket_addr(addr: &Multiaddr) -> (r: Option<SocketEndpoint>)
    ensures
        r == mdns_socket_of(addr_parts(*addr)),
{
    let parts = multiaddr_protocols(addr);
    let ghost ps = parts@;
    let mut ip: Option<IpAddress> = None;
    let mut tcp: Option<u16> = None;
    let mut udp: Option<u16> = None;
    let mut i: usize = 0;
    while i < parts.len()
        invariant
            i <= parts@.len(),
            ps == parts@,
            ps == addr_parts(*addr),
            ip == scan_parts(ps, i as int).0,
            tcp == last_tcp(ps, i as int),
            udp == last_udp(ps, i as int),
        decreases parts@.len() - i,
    {
        match parts[i] {
            AddrPart::Ip4(o) => {
                ip = Some(IpAddress::V4(o));
            },
            AddrPart::Ip6(o) => {
                ip = Some(IpAddress::V6(o));
            },
            AddrPart::Tcp(p) => {
                tcp = Some(p);
            },
            AddrPart::Udp(p) => {
                udp = Some(p);
            },
            AddrPart::Other => {},
        }
        i = i + 1;
    }
    let port = match tcp {
        Some(p) => Some(p),
        None => udp,
    };
    match (ip, port) {
        (Some(a), Some(p)) => Some(SocketEndpoint { ip: a, port: p }),
        _ => None,
    }
}

/// The record of a peer heard of at an address.
pub open spec fn heard_peer(id: Seq<u8>, address: SocketEndpoint) -> PeerView {
    PeerView {
        id,
        addresses: seq![address],
        protocols: seq!["libp2p/mdns"@],
        metadata: Seq::empty(),
        first_seen: None,
        last_seen: None,
        connection_status: ConnectionStatus::Disconnected,
    }
}

/// What hearing of peers does, from entries `s`: each peer with a usable
/// address is recorded at `now` and reported discovered when it was not
/// known, else updated. The entries and the reports after the first `n`.
pub open spec fn heard_walk(s: Seq<PeerEntry>, heard: Seq<(Vec<u8>, Multiaddr)>, now: u64, n: int) -> (
    Seq<PeerEntry>,
    Seq<(bool, PeerView)>,
)
    decreases n,
{
    if n <= 0 {
        (s, Seq::empty())
    } else {
        let (t, out) = heard_walk(s, heard, now, n - 1);
        match mdns_socket_of(addr_parts(heard[n - 1].1)) {
            Some(a) => {
                let p = heard_peer(heard[n - 1].0@, a);
                let is_new = peer_index(t, p.id, 0) < 0;
                (recorded(t, (p, now)), out.push((is_new, p)))
            },
            None => (t, out),
        }
    }
}

/// What lapsed records do, from entries `s`: each peer that has an entry
/// loses it and is reported expired. The entries and the reports after the
/// first `n`.
pub open spec fn lapsed_walk(s: Seq<PeerEntry>, lapsed: Seq<Seq<u8>>, n: int) -> (Seq<PeerEntry>, Seq<Seq<u8>>)
    decreases n,
{
    if n <= 0 {
        (s, Seq::empty())
    } else {
        let (t, out) = lapsed_walk(s, lapsed, n - 1);
        let i = peer_index(t, lapsed[n - 1], 0);
        if i >= 0 {
            (t.remove(i), out.push(lapsed[n - 1]))
        } else {
            (t, out)
        }
    }
}

/// Whether a report is the discovery or update of a peer.
pub open spec fn reports_heard(e: DiscoveryEvent, h: (bool, PeerView)) -> bool {
    if h.0 {
        e matches DiscoveryEvent::PeerDiscovered(p) && p@ == h.1
    } else {
        e matches DiscoveryEvent::PeerUpdated(p) && p@ == h.1
    }
}

/// Whether a report is the expiry of a peer.
pub open spec fn reports_expired(e: DiscoveryEvent, id: Seq<u8>) -> bool {
    e matches DiscoveryEvent::PeerExpired(x) && x@ == id
}

/// The multicast DNS service: its settings, whether it runs, the local
/// peer identifier, and the peers heard of with when.
pub struct MdnsService {
    config: MdnsDiscoveryConfig,
    peers: PeerCache,
    running: bool,
    local_peer_id: Option<Vec<u8>>,
}

impl MdnsService {
    /// The peers heard of, in order, with when.
    pub closed spec fn peer_list(&self) -> Seq<PeerEntry> {
        self.peers.peer_list()
    }

    /// Whether the service runs.
    pub closed spec fn runs(&self) -> bool {
        self.running
    }

    /// How long a peer is kept (seconds).
    pub closed spec fn expiration(&self) -> u64 {
        self.config.peer_expiration
    }

    /// The local peer identifier, once set.
    pub closed spec fn local_id(&self) -> Option<Seq<u8>> {
        match self.local_peer_id {
            Some(v) => Some(v@),
            None => None,
        }
    }

    /// One entry per peer.
    pub closed spec fn well_formed(&self) -> bool {
        self.peers.well_formed()
    }

    /// The stop signal of the running service, while it is held.
    pub closed spec fn stop_signal(&self) -> Option<tokio::sync::oneshot::Sender<()>> {
        self.config.shutdown_sender
    }

    /// The settings, with the stop signal while it is held.
    pub closed spec fn settings(&self) -> MdnsDiscoveryConfig {
        self.config
    }

    /// A service with some settings, not running, knowing no peer.
    pub fn new(config: MdnsDiscoveryConfig) -> (r: Self)
        ensures
            r.well_formed(),
            !r.runs(),
            r.peer_list() == Seq::<PeerEntry>::empty(),
            r.expiration() == config.peer_expiration,
            r.local_id() is None,
            r.settings() == config,
    {
        MdnsService { config, peers: PeerCache::new(), running: false, local_peer_id: None }
    }

    /// The settings.
    pub fn config(&self) -> (r: &MdnsDiscoveryConfig)
        ensures
            r.peer_expiration == self.expiration(),
            *r == self.settings(),
    {
        &self.config
    }

    /// Hand over the stop signal of the running service.
    pub fn set_shutdown_sender(&mut self, sender: Option<tokio::sync::oneshot::Sender<()>>)
        requires
            old(self).well_formed(),
        ensures
            final(self).well_formed(),
            final(self).runs() == old(self).runs(),
            final(self).peer_list() == old(self).peer_list(),
            final(self).expiration() == old(self).expiration(),
            final(self).local_id() == old(self).local_id(),
            final(self).stop_signal() == sender,
            final(self).settings() == (MdnsDiscoveryConfig { shutdown_sender: sender, ..old(self).settings() }),
    {
        self.config.shutdown_sender = sender;
    }

    /// Take the stop signal of the running service.
    pub fn take_shutdown_sender(&mut self) -> (r: Option<tokio::sync::oneshot::Sender<()>>)
        requires
            old(self).well_formed(),
        ensures
            final(self).well_formed(),
            final(self).runs() == old(self).runs(),
            final(self).peer_list() == old(self).peer_list(),
            final(self).expiration() == old(self).expiration(),
            final(self).local_id() == old(self).local_id(),
            r == old(self).stop_signal(),
            final(self).stop_signal() is None,
            final(self).settings() == (MdnsDiscoveryConfig { shutdown_sender: None, ..old(self).settings() }),
    {
        self.config.shutdown_sender.take()
    }

    /// Whether the service runs.
    pub fn is_running(&self) -> (r: bool)
        ensures
            r == self.runs(),
    {
        self.running
    }

    /// The local peer identifier, once set.
    pub fn local_peer_id(&self) -> (r: Option<Vec<u8>>)
        ensures
            match self.local_id() {
                Some(v) => r matches Some(w) && w@ == v,
                None => r is None,
            },
    {
        match &self.local_peer_id {
            Some(v) => {
                let w = crate::bytes_be::copy_range(v.as_slice(), 0, v.len());
                assert(w@ =~= v@);
                Some(w)
            },
            None => None,
        }
    }

    /// Set the local peer identifier.
    pub fn set_local_peer_id(&mut self, peer_id: Vec<u8>)
        requires
            old(self).well_formed(),
        ensures
            final(self).well_formed(),
            final(self).local_id() == Some(peer_id@),
            final(self).runs() == old(self).runs(),
            final(self).peer_list() == old(self).peer_list(),
            final(self).expiration() == old(self).expiration(),
    {
        self.local_peer_id = Some(peer_id);
    }

    /// Mark the service running; refused when it already runs.
    pub fn begin_start(&mut self) -> (r: Result<(), DiscoveryError>)
        requires
            old(self).well_formed(),
        ensures
            final(self).well_formed(),
            final(self).runs(),
            old(self).runs() ==> r matches Err(DiscoveryError::AlreadyRunning),
            !old(self).runs() ==> r is Ok,
            final(self).peer_list() == old(self).peer_list(),
            final(self).expiration() == old(self).expiration(),
            final(self).local_id() == old(self).local_id(),
    {
        let was = self.running;
        self.running = true;
        if was {
            Err(DiscoveryError::AlreadyRunning)
        } else {
            Ok(())
        }
    }

    /// Mark the service stopped; refused when it does not run.
    pub fn begin_stop(&mut self) -> (r: Result<(), DiscoveryError>)
        requires
            old(self).well_formed(),
        ensures
            final(self).well_formed(),
            !final(self).runs(),
            !old(self).runs() ==> r matches Err(DiscoveryError::NotRunning),
            old(self).runs() ==> r is Ok,
            final(self).peer_list() == old(self).peer_list(),
            final(self).expiration() == old(self).expiration(),
            final(self).local_id() == old(self).local_id(),
    {
        let was = self.running;
        self.running = false;
        if was {
            Ok(())
        } else {
            Err(DiscoveryError::NotRunning)
        }
    }

    /// Forget every peer, once stopped.
    pub fn clear_peers(&mut self)
        ensures
            final(self).well_formed(),
            final(self).peer_list() == Seq::<PeerEntry>::empty(),
            final(self).runs() == old(self).runs(),
            final(self).expiration() == old(self).expiration(),
            final(self).local_id() == old(self).local_id(),
    {
        self.peers.clear();
    }

    /// Take what multicast DNS reports at `now`; the reports to send come
    /// back in order.
    pub fn process_mdns_event(&mut self, event: MdnsEvent, now: u64) -> (r: Vec<DiscoveryEvent>)
        requires
            old(self).well_formed(),
        ensures
            final(self).well_formed(),
            match event {
                MdnsEvent::Discovered(heard) => {
                    let w = heard_walk(old(self).peer_list(), heard@, now, heard@.len() as int);
                    &&& final(self).peer_list() == w.0
                    &&& r@.len() == w.1.len()
                    &&& forall|i: int| 0 <= i < r@.len() ==> reports_heard(#[trigger] r@[i], w.1[i])
                },
                MdnsEvent::Expired(lapsed) => {
                    let w = lapsed_walk(
                        old(self).peer_list(),
                        lapsed@.map_values(|v: Vec<u8>| v@),
                        lapsed@.len() as int,
                    );
                    &&& final(self).peer_list() == w.0
                    &&& r@.len() == w.1.len()
                    &&& forall|i: int| 0 <= i < r@.len() ==> reports_expired(#[trigger] r@[i], w.1[i])
                },
            },
            final(self).runs() == old(self).runs(),
            final(self).expiration() == old(self).expiration(),
            final(self).local_id() == old(self).local_id(),
    {
        let mut out: Vec<DiscoveryEvent> = Vec::new();
        match event {
            MdnsEvent::Discovered(heard) => {
                let ghost s0 = self.peer_list();
                let ghost hv = heard@;
                let mut i: usize = 0;
                while i < heard.len()
                    invariant
                        i <= heard@.len(),
                        hv == heard@,
                        self.well_formed(),
                        ({
                            let w = heard_walk(s0, hv, now, i as int);
                            &&& self.peer_list() == w.0
                            &&& out@.len() == w.1.len()
                            &&& forall|j: int| 0 <= j < out@.len() ==> reports_heard(#[trigger] out@[j], w.1[j])
                        }),
                        self.runs() == old(self).runs(),
                        self.expiration() == old(self).expiration(),
                        self.local_id() == old(self).local_id(),
                    decreases heard@.len() - i,
                {
                    let ghost w0 = heard_walk(s0, hv, now, i as int);
                    match multiaddr_to_socket_addr(&heard[i].1) {
                        Some(a) => {
                            let id = crate::bytes_be::copy_range(heard[i].0.as_slice(), 0, heard[i].0.len());
                            let mut addresses: Vec<SocketEndpoint> = Vec::new();
                            addresses.push(a);
                            let mut protocols: Vec<String> = Vec::new();
                            protocols.push(String::from_str("libp2p/mdns"));
                            let info = PeerInfo {
                                id,
                                addresses,
                                protocols,
                                metadata: Vec::new(),
                                first_seen: None,
                                last_seen: None,
                                connection_status: ConnectionStatus::Disconnected,
                            };
                            proof {
                                assert(info@.id =~= hv[i as int].0@);
                                assert(info@.addresses =~= seq![a]);
                                assert(info@.protocols =~= seq!["libp2p/mdns"@]);
                                assert(info@.metadata =~= Seq::<(Seq<char>, Seq<u8>)>::empty());
                            }
                            let is_new = !self.peers.contains(info.id.as_slice());
                            self.peers.insert(info.duplicate(), now);
                            let ghost before = out@;
                            if is_new {
                                out.push(DiscoveryEvent::PeerDiscovered(info));
                            } else {
                                out.push(DiscoveryEvent::PeerUpdated(info));
                            }
                            proof {
                                let w1 = heard_walk(s0, hv, now, i + 1);
                                assert(w1.1 == w0.1.push((is_new, info@)));
                                assert forall|j: int| 0 <= j < out@.len() implies reports_heard(#[trigger] out@[j], w1.1[j]) by {
                                    if j < before.len() {
                                        assert(out@[j] == before[j]);
                                    }
                                }
                            }
                        },
                        None => {},
                    }
                    i = i + 1;
                }
            },
            MdnsEvent::Expired(lapsed) => {
                let ghost s0 = self.peer_list();
                let ghost lv = lapsed@.map_values(|v: Vec<u8>| v@);
                let mut i: usize = 0;
                while i < lapsed.len()
                    invariant
                        i <= lapsed@.len(),
                        lv == lapsed@.map_values(|v: Vec<u8>| v@),
                        self.well_formed(),
                        ({
                            let w = lapsed_walk(s0, lv, i as int);
                            &&& self.peer_list() == w.0
                            &&& out@.len() == w.1.len()
                            &&& forall|j: int| 0 <= j < out@.len() ==> reports_expired(#[trigger] out@[j], w.1[j])
                        }),
                        self.runs() == old(self).runs(),
                        self.expiration() == old(self).expiration(),
                        self.local_id() == old(self).local_id(),
                    decreases lapsed@.len() - i,
                {
                    let ghost w0 = lapsed_walk(s0, lv, i as int);
                    assert(lv[i as int] == lapsed@[i as int]@);
                    if self.peers.remove(lapsed[i].as_slice()) {
                        let id = crate::bytes_be::copy_range(lapsed[i].as_slice(), 0, lapsed[i].len());
                        assert(id@ =~= lv[i as int]);
                        let ghost before = out@;
                        out.push(DiscoveryEvent::PeerExpired(id));
                        proof {
                            let w1 = lapsed_walk(s0, lv, i + 1);
                            assert forall|j: int| 0 <= j < out@.len() implies reports_expired(#[trigger] out@[j], w1.1[j]) by {
                                if j < before.len() {
                                    assert(out@[j] == before[j]);
                                }
                            }
                        }
                    }
                    i = i + 1;
                }
            },
        }
        out
    }

    /// Drop the peers not heard of for longer than the expiration before
    /// `now`, and report them expired, in order.
    pub fn check_peer_expiration(&mut self, now: u64) -> (r: Vec<DiscoveryEvent>)
        requires
            old(self).well_formed(),
        ensures
            final(self).well_formed(),
            final(self).peer_list() == recent_entries(old(self).peer_list(), now, old(self).expiration()),
            r@.len() == stale_ids(old(self).peer_list(), now, old(self).expiration()).len(),
            forall|i: int| 0 <= i < r@.len() ==> reports_expired(
                #[trigger] r@[i],
                stale_ids(old(self).peer_list(), now, old(self).expiration())[i],
            ),
            final(self).runs() == old(self).runs(),
            final(self).expiration() == old(self).expiration(),
            final(self).local_id() == old(self).local_id(),
    {
        let exp = self.config.peer_expiration;
        let ids = self.peers.expire(now, exp);
        let ghost idv = ids@.map_values(|v: Vec<u8>| v@);
        let mut out: Vec<DiscoveryEvent> = Vec::new();
        let n = ids.len();
        let mut k: usize = 0;
        while k < n
            invariant
                k <= n,
                n == idv.len(),
                ids@.len() == n,
                idv == ids@.map_values(|v: Vec<u8>| v@),
                out@.len() == k,
                forall|j: int| 0 <= j < k ==> reports_expired(#[trigger] out@[j], idv[j]),
            decreases n - k,
        {
            let id = crate::bytes_be::copy_range(ids[k].as_slice(), 0, ids[k].len());
            assert(id@ =~= idv[k as int]);
            let ghost before = out@;
            out.push(DiscoveryEvent::PeerExpired(id));
            proof {
                assert forall|j: int| 0 <= j < k + 1 implies reports_expired(#[trigger] out@[j], idv[j]) by {
                    if j < k {
                        assert(out@[j] == before[j]);
                    }
                }
            }
            k = k + 1;
        }
        out
    }

    /// The records of the peers heard of; refused when the service does
    /// not run.
    pub fn discovered_peers(&self) -> (r: Result<Vec<PeerInfo>, DiscoveryError>)
        ensures
            !self.runs() ==> r matches Err(DiscoveryError::NotRunning),
            self.runs() ==> (r matches Ok(v) && peer_views(v@) == entry_peers(self.peer_list())),
    {
        if !self.running {
            return Err(DiscoveryError::NotRunning);
        }
        Ok(self.peers.all())
    }
}

/// A character in lower case when it is an ASCII capital.
pub open spec fn ascii_lower_char(c: char) -> char {
    if 'A' <= c <= 'Z' {
        ((c as u32) + 32) as char
    } else {
        c
    }
}

/// A text with its ASCII capitals in lower case.
pub open spec fn ascii_lower(s: Seq<char>) -> Seq<char> {
    s.map_values(|c: char| ascii_lower_char(c))
}

/// A text with its ASCII capitals in lower case.
fn to_ascii_lower(s: &str) -> (r: String)
    ensures
        r@ == ascii_lower(s@),
{
    let chars = text_chars(s);
    let mut out = String::new();
    let mut i: usize = 0;
    while i < chars.len()
        invariant
            chars@ == s@,
            i <= chars@.len(),
            out@ == ascii_lower(s@).subrange(0, i as int),
        decreases chars@.len() - i,
    {
        let c = chars[i];
        let l = if 'A' <= c && c <= 'Z' {
            ((c as u32) + 32) as u8 as char
        } else {
            c
        };
        push_char(&mut out, l);
        i = i + 1;
        assert(out@ =~= ascii_lower(s@).subrange(0, i as int));
    }
    assert(out@ =~= ascii_lower(s@));
    out
}

/// A peer matches a lower-case criterion when one of its protocols, or one
/// of its metadata values read as text, contains it once its ASCII
/// capitals are in lower case.
pub open spec fn mdns_match(p: PeerView, criteria: Seq<char>) -> bool {
    (exists|k: int| 0 <= k < p.protocols.len() && has_substring(ascii_lower(#[trigger] p.protocols[k]), criteria))
        || (exists|k: int| 0 <= k < p.metadata.len() && has_substring(ascii_lower(utf8_lossy(#[trigger] p.metadata[k].1)), criteria))
}

/// The peers among the first `k` that match a criterion, in order.
pub open spec fn mdns_matching(s: Seq<PeerView>, criteria: Seq<char>, k: int) -> Seq<PeerView>
    decreases k,
{
    if k <= 0 {
        Seq::empty()
    } else if mdns_match(s[k - 1], criteria) {
        mdns_matching(s, criteria, k - 1).push(s[k - 1])
    } else {
        mdns_matching(s, criteria, k - 1)
    }
}

/// Whether a peer matches a lower-case criterion.
fn matches_mdns(p: &PeerInfo, criteria: &str) -> (r: bool)
    ensures
        r == mdns_match(p@, criteria@),
{
    let mut k: usize = 0;
    while k < p.protocols.len()
        invariant
            k <= p.protocols@.len(),
            forall|m: int| 0 <= m < k ==> !has_substring(ascii_lower(#[trigger] p@.protocols[m]), criteria@),
        decreases p.protocols@.len() - k,
    {
        assert(p@.protocols[k as int] == p.protocols@[k as int]@);
        let lower = to_ascii_lower(p.protocols[k].as_str());
        if contains_text(lower.as_str(), criteria) {
            return true;
        }
        k = k + 1;
    }
    let mut j: usize = 0;
    while j < p.metadata.len()
        invariant
            j <= p.metadata@.len(),
            forall|m: int| 0 <= m < p@.protocols.len() ==> !has_substring(ascii_lower(#[trigger] p@.protocols[m]), criteria@),
            forall|m: int| 0 <= m < j ==> !has_substring(ascii_lower(utf8_lossy(#[trigger] p@.metadata[m].1)), criteria@),
        decreases p.metadata@.len() - j,
    {
        assert(p@.metadata[j as int].1 == p.metadata@[j as int].1@);
        let text = lossy_string(p.metadata[j].1.as_slice());
        let lower = to_ascii_lower(text.as_str());
        if contains_text(lower.as_str(), criteria) {
            return true;
        }
        j = j + 1;
    }
    false
}

/// Discovery through multicast DNS: whether it runs, and its service.
pub struct MdnsDiscovery {
    /// The service, which the runtime starts and stops.
    pub service: MdnsService,
    running: bool,
}

impl MdnsDiscovery {
    /// Whether discovery runs.
    pub closed spec fn runs(&self) -> bool {
        self.running
    }

    /// Whether the service runs.
    pub closed spec fn service_runs(&self) -> bool {
        self.service.runs()
    }

    /// The peers the service heard of, in order, with when.
    pub closed spec fn peer_list(&self) -> Seq<PeerEntry> {
        self.service.peer_list()
    }

    /// The local peer identifier, once set.
    pub closed spec fn local_id(&self) -> Option<Seq<u8>> {
        self.service.local_id()
    }

    /// The service's invariant.
    pub closed spec fn well_formed(&self) -> bool {
        self.service.well_formed()
    }

    /// The settings of the service.
    pub closed spec fn settings(&self) -> MdnsDiscoveryConfig {
        self.service.settings()
    }

    /// Discovery with some settings, not running.
    pub fn with_config(config: MdnsDiscoveryConfig) -> (r: Self)
        ensures
            r.well_formed(),
            !r.runs(),
            !r.service_runs(),
            r.peer_list() == Seq::<PeerEntry>::empty(),
            r.local_id() is None,
            r.settings() == config,
    {
        MdnsDiscovery { service: MdnsService::new(config), running: false }
    }

    /// Discovery with the default settings, not running.
    pub fn new() -> (r: Self)
        ensures
            r.well_formed(),
            !r.runs(),
            !r.service_runs(),
            r.peer_list() == Seq::<PeerEntry>::empty(),
            r.local_id() is None,
            r.settings().ttl == DEFAULT_TTL,
            r.settings().event_buffer_size == DEFAULT_EVENT_BUFFER_SIZE,
            r.settings().peer_expiration == DEFAULT_PEER_EXPIRATION,
            r.settings().shutdown_sender is None,
    {
        Self::with_config(MdnsDiscoveryConfig::default())
    }

    /// The service.
    pub fn service(&self) -> (r: &MdnsService)
        ensures
            r.runs() == self.service_runs(),
            r.peer_list() == self.peer_list(),
            r.local_id() == self.local_id(),
    {
        &self.service
    }

    /// Whether discovery runs.
    pub fn is_running(&self) -> (r: bool)
        ensures
            r == self.runs(),
    {
        self.running
    }

    /// The local peer identifier, once set.
    pub fn local_peer_id(&self) -> (r: Option<Vec<u8>>)
        ensures
            match self.local_id() {
                Some(v) => r matches Some(w) && w@ == v,
                None => r is None,
            },
    {
        self.service.local_peer_id()
    }

    /// Mark discovery running; refused when it already runs.
    pub fn begin_start(&mut self) -> (r: Result<(), DiscoveryError>)
        requires
            old(self).well_formed(),
        ensures
            final(self).well_formed(),
            final(self).runs(),
            old(self).runs() ==> r matches Err(DiscoveryError::AlreadyRunning),
            !old(self).runs() ==> r is Ok,
            final(self).service_runs() == old(self).service_runs(),
            final(self).peer_list() == old(self).peer_list(),
            final(self).local_id() == old(self).local_id(),
    {
        let was = self.running;
        self.running = true;
        if was {
            Err(DiscoveryError::AlreadyRunning)
        } else {
            Ok(())
        }
    }

    /// Mark discovery stopped; refused when it does not run.
    pub fn begin_stop(&mut self) -> (r: Result<(), DiscoveryError>)
        requires
            old(self).well_formed(),
        ensures
            final(self).well_formed(),
            !final(self).runs(),
            !old(self).runs() ==> r matches Err(DiscoveryError::NotRunning),
            old(self).runs() ==> r is Ok,
            final(self).service_runs() == old(self).service_runs(),
            final(self).peer_list() == old(self).peer_list(),
            final(self).local_id() == old(self).local_id(),
    {
        let was = self.running;
        self.running = false;
        if was {
            Ok(())
        } else {
            Err(DiscoveryError::NotRunning)
        }
    }

    /// Announce this node: its identifier becomes the local one, and the
    /// event reporting it discovered comes back to be sent; refused when
    /// discovery does not run.
    pub fn announce(&mut self, info: PeerInfo) -> (r: Result<DiscoveryEvent, DiscoveryError>)
        requires
            old(self).well_formed(),
        ensures
            final(self).well_formed(),
            !old(self).runs() ==> (r matches Err(DiscoveryError::NotRunning)) && final(self).local_id() == old(self).local_id(),
            old(self).runs() ==> (r matches Ok(DiscoveryEvent::PeerDiscovered(p)) && p@ == info@) && final(self).local_id() == Some(info@.id),
            final(self).runs() == old(self).runs(),
            final(self).service_runs() == old(self).service_runs(),
            final(self).peer_list() == old(self).peer_list(),
    {
        if !self.running {
            return Err(DiscoveryError::NotRunning);
        }
        let id = crate::bytes_be::copy_range(info.id.as_slice(), 0, info.id.len());
        assert(id@ =~= info@.id);
        self.service.set_local_peer_id(id);
        Ok(DiscoveryEvent::PeerDiscovered(info))
    }

    /// The record of a peer heard of; refused when discovery or its
    /// service does not run.
    pub fn lookup_peer(&self, peer_id: &[u8]) -> (r: Result<Option<PeerInfo>, DiscoveryError>)
        ensures
            !self.runs() || !self.service_runs() ==> r matches Err(DiscoveryError::NotRunning),
            self.runs() && self.service_runs() ==> match first_with_id(entry_peers(self.peer_list()), peer_id@, 0) {
                Some(p) => r matches Ok(Some(q)) && q@ == p,
                None => r matches Ok(None),
            },
    {
        if !self.running {
            return Err(DiscoveryError::NotRunning);
        }
        let peers = match self.service.discovered_peers() {
            Ok(v) => v,
            Err(e) => return Err(e),
        };
        let ghost pv = peer_views(peers@);
        assert(pv == entry_peers(self.peer_list()));
        let mut i: usize = 0;
        while i < peers.len()
            invariant
                i <= peers@.len(),
                pv == peer_views(peers@),
                pv == entry_peers(self.peer_list()),
                self.runs() && self.service_runs(),
                first_with_id(pv, peer_id@, 0) == first_with_id(pv, peer_id@, i as int),
            decreases peers@.len() - i,
        {
            if crate::crypto::bytes_equal(peers[i].id.as_slice(), peer_id) {
                assert(pv[i as int] == peers@[i as int]@);
                return Ok(Some(peers[i].duplicate()));
            }
            assert(pv[i as int] == peers@[i as int]@);
            i = i + 1;
        }
        Ok(None)
    }

    /// The peers heard of that match a criterion: all when it is empty,
    /// else those with a protocol or a metadata value containing it in
    /// lower case; refused when discovery or its service does not run.
    pub fn find_peers(&self, criteria: &str) -> (r: Result<Vec<PeerInfo>, DiscoveryError>)
        ensures
            !self.runs() || !self.service_runs() ==> r matches Err(DiscoveryError::NotRunning),
            self.runs() && self.service_runs() && criteria@.len() == 0 ==> (r matches Ok(v) && peer_views(v@)
                == entry_peers(self.peer_list())),
            self.runs() && self.service_runs() && criteria@.len() != 0 ==> (r matches Ok(v) && peer_views(v@)
                == mdns_matching(
                entry_peers(self.peer_list()),
                crate::discovery::stream_discovery::lowercase(criteria@),
                self.peer_list().len() as int,
            )),
    {
        if !self.running {
            return Err(DiscoveryError::NotRunning);
        }
        let peers = match self.service.discovered_peers() {
            Ok(v) => v,
            Err(e) => return Err(e),
        };
        if criteria.is_empty() {
            return Ok(peers);
        }
        let lower = crate::discovery::stream_discovery::to_lowercase(criteria);
        let ghost pv = peer_views(peers@);
        let ghost lc = lower@;
        assert(pv == entry_peers(self.peer_list()));
        assert(pv.len() == self.peer_list().len());
        let mut out: Vec<PeerInfo> = Vec::new();
        let mut i: usize = 0;
        while i < peers.len()
            invariant
                i <= peers@.len(),
                pv == peer_views(peers@),
                lc == lower@,
                lc == crate::discovery::stream_discovery::lowercase(criteria@),
                peer_views(out@) == mdns_matching(pv, lc, i as int),
            decreases peers@.len() - i,
        {
            assert(pv[i as int] == peers@[i as int]@);
            if matches_mdns(&peers[i], lower.as_str()) {
                let ghost before = peer_views(out@);
                let p = peers[i].duplicate();
                out.push(p);
                assert(peer_views(out@) =~= before.push(p@));
            }
            i = i + 1;
        }
        Ok(out)
    }

    /// The records of the peers heard of; refused when discovery or its
    /// service does not run.
    pub fn discovered_peers(&self) -> (r: Result<Vec<PeerInfo>, DiscoveryError>)
        ensures
            !self.runs() || !self.service_runs() ==> r matches Err(DiscoveryError::NotRunning),
            self.runs() && self.service_runs() ==> (r matches Ok(v) && peer_views(v@) == entry_peers(self.peer_list())),
    {
        if !self.running {
            return Err(DiscoveryError::NotRunning);
        }
        self.service.discovered_peers()
    }
}

/// The first record for `id`, searching from `i`.
pub open spec fn first_with_id(s: Seq<PeerView>, id: Seq<u8>, i: int) -> Option<PeerView>
    decreases s.len() - i,
{
    if i < 0 || i >= s.len() {
        None
    } else if s[i].id == id {
        Some(s[i])
    } else {
        first_with_id(s, id, i + 1)
    }
}

} // verus!
