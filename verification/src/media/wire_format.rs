//! The compact wire format of media segments sent between peers: a
//! versioned record with a truncated BLAKE3 hash of the data.
use vstd::prelude::*;
use crate::bytes_be::copy_range;
use crate::crypto::{blake3_digest, bytes_equal, content_hash};
use crate::media::segment::{media_type_code, MediaType, StreamId, StreamSegment};

verus! {

/// Current wire format version.
pub const WIRE_FORMAT_VERSION: u8 = 2;

/// A segment as sent between peers.
#[derive(Debug, Clone)]
pub struct WireSegment {
    /// Wire format version.
    pub version: u8,
    /// Stream identifier bytes.
    pub stream_id: Vec<u8>,
    /// Sequence number.
    pub sequence: u64,
    /// Presentation timestamp in microseconds.
    pub pts_us: u64,
    /// Duration in microseconds.
    pub duration_us: u64,
    /// Media type: 0 video, 1 audio, 2 metadata, 3 initialization.
    pub media_type: u8,
    /// Track identifier.
    pub track_id: u8,
    /// Whether this is a key frame.
    pub is_keyframe: bool,
    /// The first 16 bytes of the BLAKE3 hash of the data.
    pub content_hash: Vec<u8>,
    /// Media data.
    pub data: Vec<u8>,
}

/// The content hash of some data: the first 16 bytes of its BLAKE3 hash.
pub open spec fn hash_of(data: Seq<u8>) -> Seq<u8> {
    blake3_digest(data).subrange(0, 16)
}

/// Whether a segment's hash matches its data.
pub open spec fn intact(w: WireSegment) -> bool {
    w.content_hash@ == hash_of(w.data@)
}

/// Whether `w` is the wire form of segment `s`: the same fields, the
/// media type by its number.
pub open spec fn is_wire_form(w: WireSegment, s: StreamSegment) -> bool {
    &&& w.stream_id@ == s.stream_id@
    &&& w.sequence == s.sequence
    &&& w.pts_us == s.pts_us
    &&& w.duration_us == s.duration_us
    &&& w.media_type == media_type_code(s.media_type)
    &&& w.track_id == s.track_id
    &&& w.is_keyframe == s.is_keyframe
    &&& w.data@ == s.data@
}

/// Whether `s` is the segment read back from wire segment `w`: the same
/// fields, an unknown media type read as video.
pub open spec fn is_read_back(s: StreamSegment, w: WireSegment) -> bool {
    &&& s.stream_id@ == w.stream_id@
    &&& s.sequence == w.sequence
    &&& s.pts_us == w.pts_us
    &&& s.duration_us == w.duration_us
    &&& (w.media_type <= 3 ==> media_type_code(s.media_type) == w.media_type)
    &&& (w.media_type > 3 ==> s.media_type == MediaType::Video)
    &&& s.data@ == w.data@
    &&& s.is_keyframe == w.is_keyframe
    &&& s.track_id == w.track_id
}

/// A segment sent in wire form and read back keeps every field.
pub proof fn lemma_wire_roundtrip(s: StreamSegment, w: WireSegment, back: StreamSegment)
    requires
        is_wire_form(w, s),
        is_read_back(back, w),
    ensures
        back.stream_id@ == s.stream_id@,
        back.sequence == s.sequence,
        back.pts_us == s.pts_us,
        back.duration_us == s.duration_us,
        back.media_type == s.media_type,
        back.data@ == s.data@,
        back.is_keyframe == s.is_keyframe,
        back.track_id == s.track_id,
{
    crate::media::segment::lemma_media_type_roundtrip(s.media_type);
}

impl WireSegment {
    /// A segment of the current version whose hash is that of its data.
    pub fn new(
        stream_id: Vec<u8>,
        sequence: u64,
        pts_us: u64,
        duration_us: u64,
        media_type: u8,
        track_id: u8,
        is_keyframe: bool,
        data: Vec<u8>,
    ) -> (r: WireSegment)
        ensures
            r.version == WIRE_FORMAT_VERSION,
            r.stream_id@ == stream_id@,
            r.sequence == sequence,
            r.pts_us == pts_us,
            r.duration_us == duration_us,
            r.media_type == media_type,
            r.track_id == track_id,
            r.is_keyframe == is_keyframe,
            r.data@ == data@,
            r.content_hash@ == hash_of(data@),
    {
        let content_hash = content_hash(data.as_slice());
        WireSegment {
            version: WIRE_FORMAT_VERSION,
            stream_id,
            sequence,
            pts_us,
            duration_us,
            media_type,
            track_id,
            is_keyframe,
            content_hash,
            data,
        }
    }

    /// Whether the content hash matches the data.
    pub fn verify_integrity(&self) -> (r: bool)
        ensures
            r == intact(*self),
    {
        let expected = content_hash(self.data.as_slice());
        bytes_equal(self.content_hash.as_slice(), expected.as_slice())
    }

    /// Whether the segment's version is one this side reads.
    pub fn is_compatible(&self) -> (r: bool)
        ensures
            r == (self.version <= WIRE_FORMAT_VERSION),
    {
        self.version <= WIRE_FORMAT_VERSION
    }

    /// The media type, when the number names one.
    pub fn media_type_enum(&self) -> (r: Option<MediaType>)
        ensures
            self.media_type <= 3 ==> r is Some && media_type_code(r->Some_0) == self.media_type,
            self.media_type > 3 ==> r is None,
    {
        MediaType::from_u8(self.media_type)
    }

    /// The wire form of a segment.
    pub fn from_segment(segment: &StreamSegment) -> (r: WireSegment)
        ensures
            r.version == WIRE_FORMAT_VERSION,
            r.stream_id@ == segment.stream_id@,
            r.sequence == segment.sequence,
            r.pts_us == segment.pts_us,
            r.duration_us == segment.duration_us,
            r.media_type == media_type_code(segment.media_type),
            r.track_id == segment.track_id,
            r.is_keyframe == segment.is_keyframe,
            r.data@ == segment.data@,
            intact(r),
            is_wire_form(r, *segment),
    {
        let data = copy_range(segment.data.as_slice(), 0, segment.data.len());
        assert(data@ =~= segment.data@);
        let content_hash = content_hash(data.as_slice());
        WireSegment {
            version: WIRE_FORMAT_VERSION,
            stream_id: segment.stream_id.to_vec(),
            sequence: segment.sequence,
            pts_us: segment.pts_us,
            duration_us: segment.duration_us,
            media_type: segment.media_type.to_u8(),
            track_id: segment.track_id,
            is_keyframe: segment.is_keyframe,
            content_hash,
            data,
        }
    }

    /// The segment that a wire segment carries; an unknown media type is
    /// read as video.
    pub fn into_segment(self) -> (r: StreamSegment)
        ensures
            r.stream_id@ == self.stream_id@,
            r.sequence == self.sequence,
            r.pts_us == self.pts_us,
            r.duration_us == self.duration_us,
            self.media_type <= 3 ==> media_type_code(r.media_type) == self.media_type,
            self.media_type > 3 ==> r.media_type == MediaType::Video,
            r.data@ == self.data@,
            r.is_keyframe == self.is_keyframe,
            r.track_id == self.track_id,
            is_read_back(r, self),
    {
        let media_type = match MediaType::from_u8(self.media_type) {
            Some(t) => t,
            None => MediaType::Video,
        };
        StreamSegment {
            stream_id: StreamId::from_vec(self.stream_id),
            sequence: self.sequence,
            pts_us: self.pts_us,
            duration_us: self.duration_us,
            media_type,
            data: self.data,
            is_keyframe: self.is_keyframe,
            track_id: self.track_id,
        }
    }
}

impl From<StreamSegment> for WireSegment {
    fn from(segment: StreamSegment) -> (r: WireSegment)
        ensures
            r.stream_id@ == segment.stream_id@,
            r.sequence == segment.sequence,
            r.media_type == media_type_code(segment.media_type),
            r.data@ == segment.data@,
            intact(r),
            is_wire_form(r, segment),
    {
        WireSegment::from_segment(&segment)
    }
}

impl vstd::std_specs::convert::FromSpecImpl<StreamSegment> for WireSegment {
    open spec fn obeys_from_spec() -> bool {
        false
    }

    open spec fn from_spec(segment: StreamSegment) -> WireSegment {
        arbitrary()
    }
}

impl From<WireSegment> for StreamSegment {
    fn from(wire: WireSegment) -> (r: StreamSegment)
        ensures
            r.stream_id@ == wire.stream_id@,
            r.sequence == wire.sequence,
            r.data@ == wire.data@,
    {
        wire.into_segment()
    }
}

impl vstd::std_specs::convert::FromSpecImpl<WireSegment> for StreamSegment {
    open spec fn obeys_from_spec() -> bool {
        false
    }

    open spec fn from_spec(wire: WireSegment) -> StreamSegment {
        arbitrary()
    }
}

/// Several wire segments sent together.
#[derive(Debug, Clone)]
pub struct WireSegmentBatch {
    /// Version of the batch format.
    pub version: u8,
    /// The segments.
    pub segments: Vec<WireSegment>,
}

impl WireSegmentBatch {
    /// A batch of the current version.
    pub fn new(segments: Vec<WireSegment>) -> (r: WireSegmentBatch)
        ensures
            r.version == WIRE_FORMAT_VERSION,
            r.segments@ == segments@,
    {
        WireSegmentBatch { version: WIRE_FORMAT_VERSION, segments }
    }

    /// A batch of the wire forms of some segments, in order.
    pub fn from_segments(segments: Vec<StreamSegment>) -> (r: WireSegmentBatch)
        ensures
            r.version == WIRE_FORMAT_VERSION,
            r.segments@.len() == segments@.len(),
            forall|i: int|
                0 <= i < segments@.len() ==> {
                    let w = #[trigger] r.segments@[i];
                    &&& w.stream_id@ == segments@[i].stream_id@
                    &&& w.sequence == segments@[i].sequence
                    &&& w.pts_us == segments@[i].pts_us
                    &&& w.duration_us == segments@[i].duration_us
                    &&& w.media_type == media_type_code(segments@[i].media_type)
                    &&& w.track_id == segments@[i].track_id
                    &&& w.is_keyframe == segments@[i].is_keyframe
                    &&& w.data@ == segments@[i].data@
                    &&& intact(w)
                },
    {
        let mut out: Vec<WireSegment> = Vec::new();
        let mut i: usize = 0;
        while i < segments.len()
            invariant
                i <= segments@.len(),
                out@.len() == i,
                forall|j: int|
                    0 <= j < i ==> {
                        let w = #[trigger] out@[j];
                        &&& w.stream_id@ == segments@[j].stream_id@
                        &&& w.sequence == segments@[j].sequence
                        &&& w.pts_us == segments@[j].pts_us
                        &&& w.duration_us == segments@[j].duration_us
                        &&& w.media_type == media_type_code(segments@[j].media_type)
                        &&& w.track_id == segments@[j].track_id
                        &&& w.is_keyframe == segments@[j].is_keyframe
                        &&& w.data@ == segments@[j].data@
                        &&& intact(w)
                    },
            decreases segments@.len() - i,
        {
            out.push(WireSegment::from_segment(&segments[i]));
            i = i + 1;
        }
        WireSegmentBatch::new(out)
    }

    /// The segments the batch carries, in order.
    pub fn into_segments(self) -> (r: Vec<StreamSegment>)
        ensures
            r@.len() == self.segments@.len(),
            forall|i: int|
                0 <= i < r@.len() ==> {
                    let s = #[trigger] r@[i];
                    let w = self.segments@[i];
                    &&& s.stream_id@ == w.stream_id@
                    &&& s.sequence == w.sequence
                    &&& s.pts_us == w.pts_us
                    &&& s.duration_us == w.duration_us
                    &&& (w.media_type <= 3 ==> media_type_code(s.media_type) == w.media_type)
                    &&& (w.media_type > 3 ==> s.media_type == MediaType::Video)
                    &&& s.data@ == w.data@
                    &&& s.is_keyframe == w.is_keyframe
                    &&& s.track_id == w.track_id
                },
    {
        let mut out: Vec<StreamSegment> = Vec::new();
        let mut i: usize = 0;
        while i < self.segments.len()
            invariant
                i <= self.segments@.len(),
                out@.len() == i,
                forall|j: int|
                    0 <= j < i ==> {
                        let s = #[trigger] out@[j];
                        let w = self.segments@[j];
                        &&& s.stream_id@ == w.stream_id@
                        &&& s.sequence == w.sequence
                        &&& s.pts_us == w.pts_us
                        &&& s.duration_us == w.duration_us
                        &&& (w.media_type <= 3 ==> media_type_code(s.media_type) == w.media_type)
                        &&& (w.media_type > 3 ==> s.media_type == MediaType::Video)
                        &&& s.data@ == w.data@
                        &&& s.is_keyframe == w.is_keyframe
                        &&& s.track_id == w.track_id
                    },
            decreases self.segments@.len() - i,
        {
            let w = &self.segments[i];
            let seg = WireSegment {
                version: w.version,
                stream_id: copy_range(w.stream_id.as_slice(), 0, w.stream_id.len()),
                sequence: w.sequence,
                pts_us: w.pts_us,
                duration_us: w.duration_us,
                media_type: w.media_type,
                track_id: w.track_id,
                is_keyframe: w.is_keyframe,
                content_hash: copy_range(w.content_hash.as_slice(), 0, w.content_hash.len()),
                data: copy_range(w.data.as_slice(), 0, w.data.len()),
            };
            out.push(seg.into_segment());
            i = i + 1;
        }
        out
    }

    /// Number of segments in the batch.
    pub fn len(&self) -> (r: usize)
        ensures
            r == self.segments@.len(),
    {
        self.segments.len()
    }

    /// Whether the batch holds no segment.
    pub fn is_empty(&self) -> (r: bool)
        ensures
            r == (self.segments@.len() == 0),
    {
        self.segments.len() == 0
    }
}

/// A segment made by [`WireSegment::new`] from some data passes its
/// integrity check.
pub proof fn lemma_new_segment_intact(data: Seq<u8>, w: WireSegment)
    requires
        w.data@ == data,
        w.content_hash@ == hash_of(data),
    ensures
        intact(w),
{
}

} // verus!
