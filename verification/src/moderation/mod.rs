//! Moderation of a node: blocked and whitelisted peers, flagged streams,
//! and lists of them to share between nodes.
pub mod config;
pub mod manager;
pub mod types;
