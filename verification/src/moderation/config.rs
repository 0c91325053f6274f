//! Settings of the moderation manager.
use vstd::prelude::*;

verus! {

/// Settings of the moderation manager.
#[derive(Debug, Clone)]
pub struct ModerationConfig {
    /// Path of the file the state is saved to (JSON).
    pub persistence_path: Option<String>,
    /// Save the state after each change.
    pub auto_persist: bool,
    /// Only whitelisted peers may connect.
    pub whitelist_only: bool,
}

impl Default for ModerationConfig {
    fn default() -> (r: Self)
        ensures
            r.persistence_path is None,
            !r.auto_persist,
            !r.whitelist_only,
    {
        ModerationConfig { persistence_path: None, auto_persist: false, whitelist_only: false }
    }
}

} // verus!
