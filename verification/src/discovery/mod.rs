//! Finding peers and streams: peer states, settings of the discovery
//! services, and stream announcements.
pub mod bootstrap;
pub mod dht;
pub mod interface;
pub mod lib;
pub mod manager;
pub mod mdns;
pub mod peer_cache;
pub mod stream_discovery;
pub mod utils;
