//! Settings of the bridge between the overlay network and local
//! subscribers.
use vstd::prelude::*;

verus! {

/// Settings of the bridge between the overlay network and local
/// subscribers.
#[derive(Debug, Clone)]
pub struct P2PBridgeConfig {
    /// Capacity of the channel that forwards segments.
    pub channel_buffer_size: usize,
    /// Most streams followed at once.
    pub max_streams: usize,
}

impl Default for P2PBridgeConfig {
    fn default() -> (r: Self)
        ensures
            r.channel_buffer_size == 1000,
            r.max_streams == 100,
    {
        P2PBridgeConfig { channel_buffer_size: 1000, max_streams: 100 }
    }
}

} // verus!
