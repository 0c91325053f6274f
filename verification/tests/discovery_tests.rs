use obn_core::config::{DiscoveryConfig, NetworkConfig};
use obn_core::crypto::random_bytes;
use obn_core::discovery::lib::ConnectionStatus;
use obn_core::discovery::stream_discovery::{StreamAnnouncement, StreamDiscovery, StreamDiscoveryConfig, DEFAULT_ANNOUNCEMENT_TTL_SECS};
use obn_core::discovery::utils::{
    bytes_to_peer_id, multiaddr_to_socket_addr, peer_id_to_bytes, socket_addr_to_multiaddr, DiscoveryUtilsError, IpAddress,
    SocketEndpoint,
};
use libp2p::identity::Keypair;
use libp2p::multiaddr::Multiaddr;
use libp2p::PeerId as Libp2pPeerId;

fn publisher() -> Vec<u8> {
    random_bytes(32).unwrap()
}

#[test]
fn test_stream_announcement_creation() {
    let announcement = StreamAnnouncement::new("test_stream".to_string(), "Test Stream".to_string(), &publisher())
        .with_video("h264", 1920, 1080)
        .with_audio("aac")
        .with_metadata("category", "gaming");
    assert_eq!(announcement.stream_id, "test_stream");
    assert_eq!(announcement.title, "Test Stream");
    assert_eq!(announcement.video_codec, Some("h264".to_string()));
    assert_eq!(announcement.audio_codec, Some("aac".to_string()));
    assert_eq!(announcement.video_width, Some(1920));
    assert_eq!(announcement.video_height, Some(1080));
    assert_eq!(announcement.get_metadata("category"), Some(&"gaming".to_string()));
}

#[test]
fn test_stream_announcement_expiry() {
    let mut announcement = StreamAnnouncement::new("test_stream".to_string(), "Test".to_string(), &publisher());
    assert!(!announcement.is_expired());
    announcement.announced_at = 0;
    announcement.ttl_secs = 1;
    assert!(announcement.is_expired());
}

#[test]
fn test_stream_announcement_summary() {
    let announcement = StreamAnnouncement::new("test".to_string(), "My Stream".to_string(), &publisher())
        .with_video("h264", 1280, 720)
        .with_audio("opus");
    let summary = announcement.summary();
    assert!(summary.contains("My Stream"));
    assert!(summary.contains("1280x720"));
    assert!(summary.contains("h264"));
    assert!(summary.contains("opus"));
}

#[test]
fn test_stream_announcement_summary_exact() {
    let a = StreamAnnouncement::new_at("s".to_string(), "T".to_string(), b"p", 100);
    assert_eq!(a.summary(), "T [unknown] (unknown)");
    let a = a.with_audio("aac");
    assert_eq!(a.summary(), "T [unknown] (none/aac)");
    let b = StreamAnnouncement::new_at("s".to_string(), "T".to_string(), b"p", 100).with_video("vp9", 640, 480);
    assert_eq!(b.summary(), "T [640x480] (vp9/none)");
}

#[test]
fn test_stream_announcement_expiry_boundary() {
    let a = StreamAnnouncement::new_at("s".to_string(), "T".to_string(), b"p", 100);
    assert_eq!(a.ttl_secs, DEFAULT_ANNOUNCEMENT_TTL_SECS);
    assert_eq!(a.started_at, 100);
    assert!(!a.is_expired_at(400));
    assert!(a.is_expired_at(401));
}

#[test]
fn test_metadata_replaces_value() {
    let a = StreamAnnouncement::new_at("s".to_string(), "T".to_string(), b"p", 0)
        .with_metadata("k", "v1")
        .with_metadata("k", "v2")
        .with_metadata("j", "w");
    assert_eq!(a.metadata.len(), 2);
    assert_eq!(a.get_metadata("k"), Some(&"v2".to_string()));
    assert_eq!(a.get_metadata("missing"), None);
}

#[test]
fn test_discovery_defaults() {
    let c = StreamDiscoveryConfig::default();
    assert_eq!(c.announce_interval_secs, 60);
    assert_eq!(c.max_cached_streams, 1000);
    assert_eq!(c.cleanup_interval_secs, 30);
    let n = NetworkConfig::default();
    assert_eq!(n.listen_port, 9000);
    assert_eq!(n.max_connections, 50);
    let d = DiscoveryConfig::default();
    assert!(d.enable_mdns && d.enable_dht);
    assert_eq!(d.peer_refresh_interval_secs, 30);
    assert_eq!(ConnectionStatus::default(), ConnectionStatus::Disconnected);
}

#[test]
fn test_discovery_utils_error_text() {
    assert_eq!(DiscoveryUtilsError::EmptyPeerId.to_string(), "Empty peer ID");
    assert_eq!(
        DiscoveryUtilsError::InvalidMultiaddr("x".into()).to_string(),
        "Invalid multiaddr: x"
    );
}

fn ann(id: &str, title: &str, publisher: &[u8], at: u64) -> StreamAnnouncement {
    StreamAnnouncement::new_at(id.to_string(), title.to_string(), publisher, at)
}

#[test]
fn test_stream_cache_process_and_expiry() {
    let mut d = StreamDiscovery::new(StreamDiscoveryConfig::default());
    // Expired on arrival: ignored.
    assert!(d.process_announcement_at(ann("old", "Old", b"p", 0), 1000).is_none());
    assert_eq!(d.stream_count_at(1000), 0);
    let got = d.process_announcement_at(ann("a", "Alpha Show", b"p1", 1000), 1000).unwrap();
    assert_eq!(got.stream_id, "a");
    d.process_announcement_at(ann("b", "Beta", b"p2", 1000), 1100);
    assert_eq!(d.stream_count_at(1100), 2);
    assert_eq!(d.list_streams_at(1100).len(), 2);
    assert!(d.get_stream_at("a", 1100).is_some());
    assert!(d.get_stream_at("zzz", 1100).is_none());
    // Both expire 300 s after 1000.
    assert!(d.get_stream_at("a", 1301).is_none());
    assert_eq!(d.stream_count_at(1301), 0);
    d.cleanup_expired_at(1301);
    assert_eq!(d.list_streams_at(1000).len(), 0);
}

#[test]
fn test_stream_cache_queries() {
    let mut d = StreamDiscovery::new(StreamDiscoveryConfig::default());
    d.process_announcement_at(ann("a", "Morning NEWS", b"p1", 10), 10);
    d.process_announcement_at(ann("b", "Evening news", b"p1", 10), 10);
    d.process_announcement_at(ann("c", "Cooking", b"p2", 10), 10);
    assert_eq!(d.get_streams_by_publisher_at(b"p1", 20).len(), 2);
    assert_eq!(d.get_streams_by_publisher_at(b"p3", 20).len(), 0);
    assert_eq!(d.search_streams_at("news", 20).len(), 2);
    assert_eq!(d.search_streams_at("COOK", 20).len(), 1);
    assert_eq!(d.search_streams_at("sport", 20).len(), 0);
    // A second announcement of a stream replaces the first.
    d.process_announcement_at(ann("c", "Baking", b"p2", 15), 15);
    assert_eq!(d.stream_count_at(20), 3);
    assert_eq!(d.get_stream_at("c", 20).unwrap().title, "Baking");
}

#[test]
fn test_stream_cache_full() {
    let config = StreamDiscoveryConfig { announce_interval_secs: 60, max_cached_streams: 1, cleanup_interval_secs: 30 };
    let mut d = StreamDiscovery::new(config);
    d.process_announcement_at(ann("a", "A", b"p", 0), 0);
    // Full, and nothing expired: the new one is returned but not kept.
    assert!(d.process_announcement_at(ann("b", "B", b"p", 100), 100).is_some());
    assert!(d.get_stream_at("b", 100).is_none());
    // Once the first expired, room is made for the next.
    d.process_announcement_at(ann("c", "C", b"p", 400), 400);
    assert!(d.get_stream_at("c", 400).is_some());
    assert!(d.get_stream_at("a", 400).is_none());
}

#[test]
fn test_own_streams_and_removal() {
    let mut d = StreamDiscovery::new(StreamDiscoveryConfig::default());
    d.announce_stream(ann("mine", "Mine", b"me", 5));
    d.announce_stream(ann("mine", "Mine again", b"me", 6));
    let again = d.reannouncements_at(50);
    assert_eq!(again.len(), 1);
    assert_eq!(again[0].announced_at, 50);
    assert_eq!(again[0].title, "Mine again");
    assert!(d.get_stream_at("mine", 7).is_some());
    d.remove_stream("mine");
    assert!(d.get_stream_at("mine", 7).is_none());
    assert!(d.reannouncements_at(50).is_empty());
    assert!(!d.is_running());
    d.start();
    assert!(d.is_running());
    d.stop();
    assert!(!d.is_running());
}

#[test]
fn test_peer_id_conversion() {
    let keypair = Keypair::generate_ed25519();
    let peer_id = Libp2pPeerId::from_public_key(&keypair.public());

    // Test peer_id_to_bytes and bytes_to_peer_id
    let bytes = peer_id_to_bytes(&peer_id);
    let peer_id2 = bytes_to_peer_id(&bytes).unwrap();
    assert_eq!(peer_id, peer_id2);

    // Test empty peer ID
    assert!(matches!(bytes_to_peer_id(&[]), Err(DiscoveryUtilsError::EmptyPeerId)));
}

#[test]
fn test_bytes_to_peer_id_rejects_garbage() {
    assert!(matches!(bytes_to_peer_id(&[0xff, 0x01]), Err(DiscoveryUtilsError::PeerIdConversion(_))));
}

#[test]
fn test_multiaddr_conversion() {
    // IPv4 with port
    let addr = "/ip4/192.168.1.1/tcp/8080".parse::<Multiaddr>().unwrap();
    let socket_addr = multiaddr_to_socket_addr(&addr).unwrap();
    assert_eq!(socket_addr.ip, IpAddress::V4([192, 168, 1, 1]));
    assert_eq!(socket_addr.port, 8080);

    // IPv6 with port
    let addr = "/ip6/2001:db8::1/udp/9090".parse::<Multiaddr>().unwrap();
    let socket_addr = multiaddr_to_socket_addr(&addr).unwrap();
    assert_eq!(socket_addr.ip, IpAddress::V6([0x20, 0x01, 0x0d, 0xb8, 0, 0, 0, 0, 0, 0, 0, 0, 0, 0, 0, 1]));
    assert_eq!(socket_addr.port, 9090);

    // Without port
    let addr = "/ip4/192.168.1.1".parse::<Multiaddr>().unwrap();
    let socket_addr = multiaddr_to_socket_addr(&addr).unwrap();
    assert_eq!(socket_addr.port, 0);

    // Localhost addresses
    let ipv4_addr = "/ip4/127.0.0.1".parse::<Multiaddr>().unwrap();
    let socket_addr = multiaddr_to_socket_addr(&ipv4_addr).unwrap();
    assert!(matches!(socket_addr.ip, IpAddress::V4(_)));

    let ipv6_addr = "/ip6/::1".parse::<Multiaddr>().unwrap();
    let socket_addr = multiaddr_to_socket_addr(&ipv6_addr).unwrap();
    assert!(matches!(socket_addr.ip, IpAddress::V6(_)));

    // Unsupported protocol (a Unix path is one segment, its slashes
    // percent-encoded)
    let unsupported = "/unix/path%2Fto%2Fsocket".parse::<Multiaddr>().unwrap();
    assert!(multiaddr_to_socket_addr(&unsupported).is_none());
}

#[test]
fn test_socket_addr_to_multiaddr() {
    // IPv4 with port
    let ipv4 = SocketEndpoint { ip: IpAddress::V4([192, 168, 1, 1]), port: 8080 };
    let multiaddr = socket_addr_to_multiaddr(&ipv4);
    assert_eq!(multiaddr.to_string(), "/ip4/192.168.1.1/tcp/8080");

    // IPv6 with port
    let ipv6 = SocketEndpoint {
        ip: IpAddress::V6([0x20, 0x01, 0x0d, 0xb8, 0, 0, 0, 0, 0, 0, 0, 0, 0, 0, 0, 1]),
        port: 9090,
    };
    let multiaddr = socket_addr_to_multiaddr(&ipv6);
    assert_eq!(multiaddr.to_string(), "/ip6/2001:db8::1/tcp/9090");

    // Zero port
    let ipv4_no_port = SocketEndpoint { ip: IpAddress::V4([192, 168, 1, 1]), port: 0 };
    let multiaddr = socket_addr_to_multiaddr(&ipv4_no_port);
    assert_eq!(multiaddr.to_string(), "/ip4/192.168.1.1");
}

#[test]
fn test_socket_multiaddr_roundtrip() {
    let s = SocketEndpoint { ip: IpAddress::V6([0, 1, 2, 3, 4, 5, 6, 7, 8, 9, 10, 11, 12, 13, 14, 15]), port: 443 };
    assert_eq!(multiaddr_to_socket_addr(&socket_addr_to_multiaddr(&s)), Some(s));
    let s0 = SocketEndpoint { ip: IpAddress::V4([10, 0, 0, 1]), port: 0 };
    assert_eq!(multiaddr_to_socket_addr(&socket_addr_to_multiaddr(&s0)), Some(s0));
}

#[test]
fn test_last_address_and_port_win() {
    let addr = "/ip4/1.2.3.4/tcp/1/ip4/5.6.7.8/udp/2".parse::<Multiaddr>().unwrap();
    let s = multiaddr_to_socket_addr(&addr).unwrap();
    assert_eq!(s, SocketEndpoint { ip: IpAddress::V4([5, 6, 7, 8]), port: 2 });
}
