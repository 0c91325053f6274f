use libp2p::identity::Keypair;
use libp2p::multiaddr::Multiaddr;
use libp2p::PeerId;
use obn_core::discovery::bootstrap::{
    extract_socket_addr_from_multiaddr, generate_peer_id, BootstrapDial, BootstrapDiscovery, BootstrapDiscoveryConfig,
    DialEvent,
};
use obn_core::discovery::dht::{DhtDiscovery, DhtDiscoveryConfig, DhtEvent};
use obn_core::discovery::interface::{ConnectionStatus, DiscoveryError, DiscoveryEvent, PeerInfo};
use obn_core::discovery::manager::{DiscoveryManager, DiscoveryManagerConfig};
use obn_core::discovery::mdns::{
    multiaddr_to_socket_addr as mdns_socket, MdnsDiscovery, MdnsDiscoveryConfig, MdnsEvent, MdnsService,
    DEFAULT_EVENT_BUFFER_SIZE, DEFAULT_PEER_EXPIRATION, DEFAULT_TTL,
};
use obn_core::discovery::peer_cache::PeerCache;
use obn_core::discovery::utils::{IpAddress, SocketEndpoint};

fn peer(id: u8, protocols: &[&str]) -> PeerInfo {
    PeerInfo {
        id: vec![id],
        protocols: protocols.iter().map(|p| p.to_string()).collect(),
        ..PeerInfo::default()
    }
}

#[test]
fn test_peer_cache_insert_and_lookup() {
    let mut cache = PeerCache::new();
    cache.insert(peer(1, &["/obn/1.0"]), 10);
    cache.insert(peer(2, &["/other"]), 20);
    cache.insert(peer(1, &["/obn/2.0"]), 30);
    assert_eq!(cache.len(), 2);
    assert_eq!(cache.lookup(&[1]).unwrap().protocols, vec!["/obn/2.0".to_string()]);
    assert!(cache.lookup(&[3]).is_none());
    let found = cache.matching("obn");
    assert_eq!(found.len(), 1);
    assert_eq!(found[0].id, vec![1]);
    assert_eq!(cache.matching("").len(), 2);
}

#[test]
fn test_peer_cache_age() {
    let mut cache = PeerCache::new();
    cache.insert(peer(1, &[]), 0);
    cache.insert(peer(2, &[]), 5_000_000);
    // At 10 s with a 7 s limit: peer 1 is 10 s old, peer 2 is 5 s old.
    let fresh = cache.fresh(10_000_000, 7);
    assert_eq!(fresh.len(), 1);
    assert_eq!(fresh[0].id, vec![2]);
    // Exactly at the limit a peer is neither fresh nor stale.
    assert!(cache.fresh(7_000_000, 7).iter().all(|p| p.id != vec![1]));
    let mut c2 = PeerCache::new();
    c2.insert(peer(1, &[]), 0);
    assert!(c2.expire(7_000_000, 7).is_empty());
    assert_eq!(c2.expire(7_000_001, 7), vec![vec![1]]);
    assert_eq!(c2.len(), 0);
    let expired = cache.expire(10_000_000, 7);
    assert_eq!(expired, vec![vec![1]]);
    assert_eq!(cache.len(), 1);
}

#[test]
fn test_bootstrap_config_default() {
    let c = BootstrapDiscoveryConfig::default();
    assert!(c.bootstrap_nodes.is_empty());
    assert_eq!(c.event_buffer_size, 32);
    assert_eq!(c.peer_expiration, 3600);
    assert_eq!(c.protocol_name, "OpenBroadcastNetwork/1.0.0");
    assert_eq!(c.connect_timeout, 10);
    assert_eq!(c.refresh_interval, 300);
}

#[test]
fn test_bootstrap_legacy_nodes() {
    let mut config = BootstrapDiscoveryConfig::default();
    config.bootstrap_nodes.push("/ip4/10.0.0.1/tcp/4001".parse::<Multiaddr>().unwrap());
    config.bootstrap_nodes_legacy.push(SocketEndpoint { ip: IpAddress::V4([192, 168, 1, 5]), port: 9000 });
    let d = BootstrapDiscovery::with_config(config);
    assert!(!d.is_running());
    assert!(d.check_nodes().is_ok());
    assert!(d.local_peer_id().is_none());
    match BootstrapDiscovery::new().check_nodes() {
        Err(DiscoveryError::BootstrapError(m)) => assert_eq!(m, "No bootstrap nodes configured"),
        other => panic!("unexpected {:?}", other),
    }
}

#[test]
fn test_generate_peer_id() {
    let v4 = SocketEndpoint { ip: IpAddress::V4([127, 0, 0, 1]), port: 0x1f90 };
    assert_eq!(generate_peer_id(&v4), vec![0, 127, 0, 0, 1, 0x1f, 0x90]);
    let v6 = SocketEndpoint { ip: IpAddress::V6([0; 16]), port: 1 };
    let id = generate_peer_id(&v6);
    assert_eq!(id.len(), 19);
    assert_eq!(id[0], 1);
    assert_eq!(&id[17..], &[0, 1]);
}

#[test]
fn test_extract_socket_addr_needs_tcp() {
    let a = "/ip4/1.2.3.4/tcp/80".parse::<Multiaddr>().unwrap();
    assert_eq!(extract_socket_addr_from_multiaddr(&a), Some(SocketEndpoint { ip: IpAddress::V4([1, 2, 3, 4]), port: 80 }));
    let b = "/ip4/1.2.3.4/udp/80".parse::<Multiaddr>().unwrap();
    assert_eq!(extract_socket_addr_from_multiaddr(&b), None);
    let c = "/ip4/1.2.3.4".parse::<Multiaddr>().unwrap();
    assert_eq!(extract_socket_addr_from_multiaddr(&c), None);
}

#[test]
fn test_bootstrap_dial_connects() {
    let mut dial = BootstrapDial::new();
    assert!(dial.keeps_waiting(0, 10_000));
    assert!(matches!(dial.step(DialEvent::Other, 5), Ok(None)));
    let remote = "/ip4/10.0.0.1/tcp/4001".parse::<Multiaddr>().unwrap();
    let p = dial.step(DialEvent::Connected { peer_id: vec![7], remote }, 5).unwrap().unwrap();
    assert_eq!(p.id, vec![7]);
    assert_eq!(p.addresses, vec![SocketEndpoint { ip: IpAddress::V4([10, 0, 0, 1]), port: 4001 }]);
    assert_eq!(p.connection_status, ConnectionStatus::Connected);
    assert_eq!(p.first_seen, Some(5));
    assert!(!dial.keeps_waiting(1, 10_000));
    let listen = vec!["/ip4/10.0.0.2/tcp/1".parse::<Multiaddr>().unwrap(), "/dns/x/tcp/2".parse::<Multiaddr>().unwrap()];
    let q = dial
        .step(DialEvent::Identified { peer_id: vec![8], listen_addrs: listen, protocols: vec!["/ipfs/id/1.0.0".to_string()] }, 6)
        .unwrap()
        .unwrap();
    assert_eq!(q.addresses.len(), 1);
    assert_eq!(q.protocols, vec!["/ipfs/id/1.0.0".to_string()]);
    let learnt = dial.finish("/ip4/10.0.0.1/tcp/4001").unwrap();
    assert_eq!(learnt.len(), 2);
}

#[test]
fn test_bootstrap_dial_fails() {
    let mut dial = BootstrapDial::new();
    match dial.step(DialEvent::ConnectionFailed { peer: None, error: "refused".to_string() }, 0) {
        Err(DiscoveryError::BootstrapError(m)) => assert_eq!(m, "Connection failed to unknown: refused"),
        other => panic!("unexpected {:?}", other),
    }
    assert!(!dial.keeps_waiting(10_000, 10_000));
    match dial.finish("/ip4/1.1.1.1/tcp/1") {
        Err(DiscoveryError::BootstrapError(m)) => assert_eq!(m, "Timeout connecting to bootstrap node: /ip4/1.1.1.1/tcp/1"),
        other => panic!("unexpected {:?}", other),
    }
}

#[test]
fn test_bootstrap_peers() {
    let mut d = BootstrapDiscovery::new();
    d.announce_at(peer(1, &["/obn"]), 0).unwrap();
    d.record_peers(vec![peer(2, &["/obn"]), peer(3, &[])], 1_000_000);
    assert_eq!(d.lookup_peer(&[2]).unwrap().unwrap().id, vec![2]);
    assert_eq!(d.find_peers_at("obn", 2_000_000).unwrap().len(), 2);
    assert_eq!(d.discovered_peers_at(3_600_500_000).unwrap().len(), 2);
    let gone = d.expire_at(3_600_500_000);
    assert_eq!(gone, vec![vec![1]]);
    assert!(d.lookup_peer(&[1]).unwrap().is_none());
}

#[test]
fn test_dht_config_default() {
    let c = DhtDiscoveryConfig::default();
    assert_eq!(c.protocol_name, "/OpenBroadcastNetwork/1.0.0");
    assert_eq!(c.event_buffer_size, 32);
    assert!(c.bootstrap_peers.is_empty());
    assert_eq!(c.record_ttl, 7200);
    assert_eq!(c.peer_expiration, 3600);
}

#[test]
fn test_dht_announce_and_events() {
    let mut d = DhtDiscovery::new(DhtDiscoveryConfig::default());
    assert!(d.ensure_stopped().is_ok());
    assert!(matches!(d.ensure_running(), Err(DiscoveryError::NotRunning)));
    d.set_running(true);
    assert!(matches!(d.ensure_stopped(), Err(DiscoveryError::AlreadyRunning)));

    let me = PeerId::from_public_key(&Keypair::generate_ed25519().public());
    let info = PeerInfo { id: me.to_bytes(), ..PeerInfo::default() };
    assert_eq!(d.announce_at(info, 0).unwrap(), me);
    assert!(d.lookup_cached(&me.to_bytes()).is_some());
    match d.announce_at(peer(9, &[]), 0) {
        Err(DiscoveryError::Other(m)) => assert!(m.starts_with("Invalid peer ID: ")),
        other => panic!("unexpected {:?}", other.is_ok()),
    }
    assert!(d.lookup_cached(&[9]).is_none());

    let events = d.handle_event(DhtEvent::ClosestPeers(vec![vec![1], vec![2]]), 5);
    assert_eq!(events.len(), 2);
    assert!(matches!(&events[0], DiscoveryEvent::PeerDiscovered(p) if p.id == vec![1] && p.connection_status == ConnectionStatus::Disconnected));
    let addrs = vec!["/ip4/5.6.7.8/tcp/9".parse::<Multiaddr>().unwrap()];
    let events = d.handle_event(DhtEvent::RoutingUpdated { peer: vec![1], addresses: addrs }, 6);
    assert!(matches!(&events[0], DiscoveryEvent::PeerUpdated(p) if p.addresses.len() == 1));
    let events = d.handle_event(DhtEvent::ConnectionClosed(vec![2]), 7);
    assert!(matches!(&events[0], DiscoveryEvent::PeerExpired(id) if *id == vec![2]));
    assert!(d.lookup_cached(&[2]).is_some());
    assert!(d.handle_event(DhtEvent::Other, 8).is_empty());
    assert_eq!(d.find_local("").len(), 3);
}

#[test]
fn test_manager_config_default() {
    let c = DiscoveryManagerConfig::default();
    assert!(!c.enable_dht);
    assert!(!c.enable_bootstrap);
    assert!(c.dht_config.is_none());
    assert!(c.bootstrap_config.is_none());
    assert_eq!(c.poll_interval_ms, 100);
}

#[test]
fn test_manager_events() {
    let mut m = DiscoveryManager::new(DiscoveryManagerConfig::default());
    m.handle_discovery_event(&DiscoveryEvent::PeerDiscovered(peer(1, &["a"])));
    m.handle_discovery_event(&DiscoveryEvent::PeerUpdated(peer(2, &["b"])));
    assert_eq!(m.get_peers().len(), 1);
    m.handle_discovery_event(&DiscoveryEvent::PeerUpdated(peer(1, &["c"])));
    assert_eq!(m.lookup_peer(&[1]).unwrap().protocols, vec!["c".to_string()]);
    m.handle_discovery_event(&DiscoveryEvent::PeerConnectionStatusChanged {
        peer_id: vec![1],
        status: ConnectionStatus::Failed,
        error: Some("reset".to_string()),
    });
    assert_eq!(m.lookup_peer(&[1]).unwrap().connection_status, ConnectionStatus::Failed);
    m.handle_discovery_event(&DiscoveryEvent::ServiceStarted);
    m.handle_discovery_event(&DiscoveryEvent::PeerExpired(vec![1]));
    assert!(m.lookup_peer(&[1]).is_none());
    m.mark_running();
    assert!(m.is_running());
    m.handle_discovery_event(&DiscoveryEvent::PeerDiscovered(peer(3, &[])));
    m.mark_stopped();
    assert!(!m.is_running());
    assert!(m.get_peers().is_empty());
}

#[test]
fn test_discovery_error_text() {
    assert_eq!(DiscoveryError::AlreadyRunning.to_string(), "Service is already running");
    assert_eq!(DiscoveryError::Other("x".to_string()).to_string(), "Error: x");
    assert_eq!(DiscoveryError::ConfigError("y".to_string()).to_string(), "Configuration error: y");
}

fn create_test_peer(id: u8, port: u16) -> PeerInfo {
    PeerInfo {
        id: vec![id],
        addresses: vec![SocketEndpoint { ip: IpAddress::V4([127, 0, 0, 1]), port }],
        protocols: vec!["test/1.0".to_string()],
        metadata: Vec::new(),
        first_seen: Some(1),
        last_seen: Some(1),
        connection_status: ConnectionStatus::Disconnected,
    }
}

#[test]
fn test_discovery_events() {
    let peer1 = create_test_peer(1, 1234);

    // Test event variants
    let events = vec![
        DiscoveryEvent::PeerDiscovered(peer1.clone()),
        DiscoveryEvent::PeerUpdated(peer1.clone()),
        DiscoveryEvent::PeerExpired(peer1.id.clone()),
        DiscoveryEvent::Error("Test error".to_string()),
        DiscoveryEvent::PeerConnectionStatusChanged {
            peer_id: peer1.id.clone(),
            status: ConnectionStatus::Connected,
            error: None,
        },
        DiscoveryEvent::ServiceStarted,
        DiscoveryEvent::ServiceStopped,
    ];

    for event in events {
        match event {
            DiscoveryEvent::PeerDiscovered(p) => assert_eq!(p.id, peer1.id),
            DiscoveryEvent::PeerUpdated(p) => assert_eq!(p.id, peer1.id),
            DiscoveryEvent::PeerExpired(id) => assert_eq!(id, peer1.id),
            DiscoveryEvent::Error(_) => {},
            DiscoveryEvent::PeerConnectionStatusChanged { peer_id, status, error } => {
                assert_eq!(peer_id, peer1.id);
                assert_eq!(status, ConnectionStatus::Connected);
                assert!(error.is_none());
            },
            DiscoveryEvent::ServiceStarted => {},
            DiscoveryEvent::ServiceStopped => {},
        }
    }
}

#[test]
fn test_default_config() {
    let config = MdnsDiscoveryConfig::default();

    assert_eq!(config.ttl, DEFAULT_TTL);
    assert_eq!(config.event_buffer_size, DEFAULT_EVENT_BUFFER_SIZE);
    assert_eq!(config.peer_expiration, DEFAULT_PEER_EXPIRATION);
    assert!(config.shutdown_sender.is_none());
}

#[test]
fn test_builder_pattern() {
    let config = MdnsDiscoveryConfig::new().with_ttl(60).with_event_buffer_size(50).with_peer_expiration(60);

    assert_eq!(config.ttl, 60);
    assert_eq!(config.event_buffer_size, 50);
    assert_eq!(config.peer_expiration, 60);
}

#[test]
fn test_mdns_defaults_are_the_documented_ones() {
    assert_eq!(DEFAULT_TTL, 120);
    assert_eq!(DEFAULT_EVENT_BUFFER_SIZE, 100);
    assert_eq!(DEFAULT_PEER_EXPIRATION, 300);
}

#[test]
fn test_mdns_socket_prefers_tcp() {
    let both = "/ip4/1.2.3.4/udp/5/tcp/6".parse::<Multiaddr>().unwrap();
    assert_eq!(mdns_socket(&both).unwrap().port, 6);
    let udp = "/ip4/1.2.3.4/udp/5".parse::<Multiaddr>().unwrap();
    assert_eq!(mdns_socket(&udp).unwrap().port, 5);
    let none = "/ip4/1.2.3.4".parse::<Multiaddr>().unwrap();
    assert!(mdns_socket(&none).is_none());
}

#[test]
fn test_mdns_service_events() {
    let mut service = MdnsService::new(MdnsDiscoveryConfig::new().with_peer_expiration(1));
    assert!(matches!(service.discovered_peers(), Err(DiscoveryError::NotRunning)));
    assert!(service.begin_start().is_ok());
    assert!(matches!(service.begin_start(), Err(DiscoveryError::AlreadyRunning)));
    let a = "/ip4/10.0.0.1/tcp/7000".parse::<Multiaddr>().unwrap();
    let bad = "/dns/host".parse::<Multiaddr>().unwrap();
    let reports = service.process_mdns_event(
        MdnsEvent::Discovered(vec![(vec![1], a.clone()), (vec![2], bad), (vec![1], a)]),
        0,
    );
    assert_eq!(reports.len(), 2);
    assert!(matches!(&reports[0], DiscoveryEvent::PeerDiscovered(p) if p.id == vec![1] && p.protocols == vec!["libp2p/mdns".to_string()]));
    assert!(matches!(&reports[1], DiscoveryEvent::PeerUpdated(p) if p.id == vec![1]));
    assert_eq!(service.discovered_peers().unwrap().len(), 1);
    let reports = service.process_mdns_event(MdnsEvent::Expired(vec![vec![3], vec![1]]), 0);
    assert_eq!(reports.len(), 1);
    assert!(matches!(&reports[0], DiscoveryEvent::PeerExpired(id) if *id == vec![1]));
    let b = "/ip4/10.0.0.2/udp/7001".parse::<Multiaddr>().unwrap();
    service.process_mdns_event(MdnsEvent::Discovered(vec![(vec![4], b)]), 0);
    assert!(service.check_peer_expiration(1_000_000).is_empty());
    let reports = service.check_peer_expiration(1_000_001);
    assert!(matches!(&reports[0], DiscoveryEvent::PeerExpired(id) if *id == vec![4]));
    assert!(service.begin_stop().is_ok());
    assert!(matches!(service.begin_stop(), Err(DiscoveryError::NotRunning)));
}

#[test]
fn test_mdns_discovery_checks() {
    let mut d = MdnsDiscovery::new();
    assert!(matches!(d.announce(peer(1, &[])), Err(DiscoveryError::NotRunning)));
    assert!(matches!(d.find_peers(""), Err(DiscoveryError::NotRunning)));
    d.begin_start().unwrap();
    d.service.begin_start().unwrap();
    match d.announce(peer(5, &[])) {
        Ok(DiscoveryEvent::PeerDiscovered(p)) => assert_eq!(p.id, vec![5]),
        other => panic!("unexpected {:?}", other),
    }
    assert_eq!(d.local_peer_id(), Some(vec![5]));
    let a = "/ip4/10.0.0.1/tcp/7000".parse::<Multiaddr>().unwrap();
    d.service.process_mdns_event(MdnsEvent::Discovered(vec![(vec![1], a)]), 0);
    assert_eq!(d.find_peers("").unwrap().len(), 1);
    assert_eq!(d.find_peers("LIBP2P").unwrap().len(), 1);
    assert!(d.find_peers("other").unwrap().is_empty());
    assert!(d.lookup_peer(&[1]).unwrap().is_some());
    assert!(d.lookup_peer(&[2]).unwrap().is_none());
    assert!(matches!(d.begin_start(), Err(DiscoveryError::AlreadyRunning)));
    d.begin_stop().unwrap();
    assert!(matches!(d.discovered_peers(), Err(DiscoveryError::NotRunning)));
}
