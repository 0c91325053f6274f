//! Settings of a node: network connections and peer discovery.
use vstd::prelude::*;

verus! {

/// Network settings of a node.
#[derive(Debug, Clone)]
pub struct NetworkConfig {
    /// Port to listen on.
    pub listen_port: u16,
    /// Nodes to connect to on startup.
    pub bootstrap_nodes: Vec<String>,
    /// Most connections at once.
    pub max_connections: usize,
    /// Idle time before a connection is closed (seconds).
    pub connection_timeout_secs: u64,
}

impl Default for NetworkConfig {
    fn default() -> (r: Self)
        ensures
            r.listen_port == 9000,
            r.bootstrap_nodes@.len() == 0,
            r.max_connections == 50,
            r.connection_timeout_secs == 60,
    {
        NetworkConfig {
            listen_port: 9000,
            bootstrap_nodes: Vec::new(),
            max_connections: 50,
            connection_timeout_secs: 60,
        }
    }
}

/// Peer discovery settings of a node.
#[derive(Debug, Clone)]
pub struct DiscoveryConfig {
    /// Discover peers on the local network by mDNS.
    pub enable_mdns: bool,
    /// Discover peers through the distributed hash table.
    pub enable_dht: bool,
    /// How often to refresh the peers (seconds).
    pub peer_refresh_interval_secs: u64,
}

impl Default for DiscoveryConfig {
    fn default() -> (r: Self)
        ensures
            r.enable_mdns,
            r.enable_dht,
            r.peer_refresh_interval_secs == 30,
    {
        DiscoveryConfig { enable_mdns: true, enable_dht: true, peer_refresh_interval_secs: 30 }
    }
}

} // verus!
