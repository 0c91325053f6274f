//! Core of an open broadcast network node: MP4 parsing and fragmentation for
//! Media Source Extensions, wire formats for media segments, buffering,
//! stream announcements and peer moderation.
use vstd::prelude::*;

pub mod bytes_be;
pub mod clock;
pub mod config;
pub mod crypto;
pub mod discovery;
pub mod media;
pub mod moderation;
pub mod text;

verus! {
} // verus!
