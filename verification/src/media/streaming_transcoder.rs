//! Segments produced while a stream is being converted.
use vstd::prelude::*;

verus! {

/// A segment converted and ready to stream.
#[derive(Debug, Clone)]
pub struct TranscodedSegment {
    /// `initialization` or `media`.
    pub segment_type: String,
    /// The segment's bytes.
    pub data: Vec<u8>,
    /// Start time, when known.
    pub timestamp: Option<i64>,
    /// Duration, when known.
    pub duration: Option<u32>,
    /// Whether the segment starts at a key frame.
    pub is_keyframe: bool,
}

} // verus!
